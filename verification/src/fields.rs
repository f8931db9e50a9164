//! The fields of the interface: how they are laid out, and what each of them
//! shows and changes in the configuration.

use vstd::prelude::*;

use crate::config::{Config, ConfigView, ExecutionMode};
use crate::lang;
use crate::lang::Lang;
use crate::text;

verus! {

/// The number of fields.
pub const TOTAL_FIELDS: usize = 16;

pub const F_WEAPON1: usize = 0;

pub const F_WEAPON2: usize = 1;

pub const F_WEAPON3: usize = 2;

pub const F_EXEC_KEY: usize = 3;

pub const F_ROUTER: usize = 4;

pub const F_ORDER: usize = 5;

pub const F_MODE: usize = 6;

pub const F_RANDOM: usize = 7;

pub const F_SWITCH: usize = 8;

pub const F_SWITCH_OFF: usize = 9;

pub const F_SHOOT: usize = 10;

pub const F_SHOOT_OFF: usize = 11;

pub const A_EXPORT: usize = 12;

pub const A_LOAD: usize = 13;

pub const A_ROUTER: usize = 14;

pub const A_LANG: usize = 15;

/// What a field is for.
#[derive(Clone, Copy, PartialEq, Eq, Debug, Structural)]
pub enum FieldKind {
    Binding,
    Number,
    Order,
    Toggle,
    Action,
}

// ---------------------------------------------------------------------------
// Layout
// ---------------------------------------------------------------------------

/// The number of rows.
pub const TOTAL_ROWS: usize = 6;

/// The first field of a row: the weapon slots, the hotkeys, the execution
/// order, the two intervals, and the operations.
pub open spec fn row_start(row: int) -> int {
    if row <= 0 {
        F_WEAPON1 as int
    } else if row == 1 {
        F_EXEC_KEY as int
    } else if row == 2 {
        F_ORDER as int
    } else if row == 3 {
        F_SWITCH as int
    } else if row == 4 {
        F_SHOOT as int
    } else if row == 5 {
        A_EXPORT as int
    } else {
        TOTAL_FIELDS as int
    }
}

/// The row in which a field stands.
pub open spec fn row_of(field: int) -> int {
    if field < F_EXEC_KEY {
        0
    } else if field < F_ORDER {
        1
    } else if field < F_SWITCH {
        2
    } else if field < F_SHOOT {
        3
    } else if field < A_EXPORT {
        4
    } else {
        5
    }
}

/// The fields of a row.
pub open spec fn row_fields(row: int) -> Seq<usize> {
    Seq::new(
        (row_start(row + 1) - row_start(row)) as nat,
        |i: int| (row_start(row) + i) as usize,
    )
}

fn start_of_row(row: usize) -> (r: usize)
    requires
        row <= TOTAL_ROWS,
    ensures
        r == row_start(row as int),
        r <= TOTAL_FIELDS,
{
    match row {
        0 => F_WEAPON1,
        1 => F_EXEC_KEY,
        2 => F_ORDER,
        3 => F_SWITCH,
        4 => F_SHOOT,
        5 => A_EXPORT,
        _ => TOTAL_FIELDS,
    }
}

fn find_row(field: usize) -> (r: usize)
    ensures
        r == row_of(field as int),
        r < TOTAL_ROWS,
{
    if field < F_EXEC_KEY {
        0
    } else if field < F_ORDER {
        1
    } else if field < F_SWITCH {
        2
    } else if field < F_SHOOT {
        3
    } else if field < A_EXPORT {
        4
    } else {
        5
    }
}

/// The fields of a row, from left to right.
pub fn fields_of_row(row: usize) -> (r: Vec<usize>)
    requires
        row < TOTAL_ROWS,
    ensures
        r@ == row_fields(row as int),
{
    let lo: usize = start_of_row(row);
    let hi: usize = start_of_row(row + 1);
    let mut out: Vec<usize> = Vec::new();
    let mut i: usize = lo;
    while i < hi
        invariant
            lo == row_start(row as int),
            hi == row_start(row + 1),
            lo <= i <= hi,
            out@ == row_fields(row as int).take(i - lo),
        decreases hi - i,
    {
        out.push(i);
        proof {
            let all = row_fields(row as int);
            assert(all.take(i + 1 - lo) =~= all.take(i - lo).push(all[i - lo]));
        }
        i = i + 1;
    }
    proof {
        assert(row_fields(row as int).take(i - lo) =~= row_fields(row as int));
    }
    out
}

/// The next or the previous field; behind the last one comes the first.
pub open spec fn beside(field: usize, forward: bool) -> usize {
    if forward {
        ((field + 1) % TOTAL_FIELDS as int) as usize
    } else {
        ((field + TOTAL_FIELDS - 1) % TOTAL_FIELDS as int) as usize
    }
}

/// The field below or above: in the same column of the neighbouring row, or at
/// its end where the row is shorter. There is nothing above the first row and
/// below the last one.
pub open spec fn across(field: usize, down: bool) -> usize {
    let row = row_of(field as int);
    let column = field - row_start(row);
    let to = if down {
        if row < TOTAL_ROWS - 1 {
            row + 1
        } else {
            row
        }
    } else {
        if row > 0 {
            row - 1
        } else {
            row
        }
    };
    let fields = row_fields(to);
    if column < fields.len() {
        fields[column]
    } else {
        fields.last()
    }
}

/// The field to the right or to the left.
pub fn step_beside(field: usize, forward: bool) -> (r: usize)
    requires
        field < TOTAL_FIELDS,
    ensures
        r == beside(field, forward),
        r < TOTAL_FIELDS,
{
    if forward {
        (field + 1) % TOTAL_FIELDS
    } else {
        (field + TOTAL_FIELDS - 1) % TOTAL_FIELDS
    }
}

/// The field below or above.
pub fn step_across(field: usize, down: bool) -> (r: usize)
    requires
        field < TOTAL_FIELDS,
    ensures
        r == across(field, down),
        r < TOTAL_FIELDS,
{
    let row: usize = find_row(field);
    let column: usize = field - start_of_row(row);
    let to: usize = if down {
        if row < TOTAL_ROWS - 1 {
            row + 1
        } else {
            row
        }
    } else {
        if row > 0 {
            row - 1
        } else {
            row
        }
    };
    let fields = fields_of_row(to);
    if column < fields.len() {
        fields[column]
    } else {
        fields[fields.len() - 1]
    }
}

/// Going to one side and back leads to the same field, and sixteen steps to one
/// side lead through all the fields.
pub proof fn side_steps_cycle(field: usize)
    requires
        field < TOTAL_FIELDS,
    ensures
        beside(beside(field, true), false) == field,
        beside(beside(field, false), true) == field,
        forall|n: nat|
            n < TOTAL_FIELDS ==> #[trigger] steps_right(field, n) == (field + n)
                % TOTAL_FIELDS as int,
{
    assert forall|n: nat| n < TOTAL_FIELDS implies #[trigger] steps_right(field, n) == (field + n)
        % TOTAL_FIELDS as int by {
        lemma_steps_right(field, n);
    }
}

/// The field after `n` steps to the right.
pub open spec fn steps_right(field: usize, n: nat) -> usize
    decreases n,
{
    if n == 0 {
        field
    } else {
        beside(steps_right(field, (n - 1) as nat), true)
    }
}

proof fn lemma_steps_right(field: usize, n: nat)
    requires
        field < TOTAL_FIELDS,
    ensures
        steps_right(field, n) == (field + n) % TOTAL_FIELDS as int,
    decreases n,
{
    if n > 0 {
        lemma_steps_right(field, (n - 1) as nat);
    }
}

// ---------------------------------------------------------------------------
// What a field holds
// ---------------------------------------------------------------------------

pub open spec fn kind_of(field: usize) -> FieldKind {
    if field <= F_ROUTER {
        FieldKind::Binding
    } else if field == F_ORDER {
        FieldKind::Order
    } else if field <= F_RANDOM {
        FieldKind::Toggle
    } else if field <= F_SHOOT_OFF {
        FieldKind::Number
    } else {
        FieldKind::Action
    }
}

/// The binding that a field holds; empty for a field that holds none.
pub open spec fn binding_of(c: ConfigView, field: usize) -> Seq<char> {
    if field == F_WEAPON1 {
        c.weapon_slot1
    } else if field == F_WEAPON2 {
        c.weapon_slot2
    } else if field == F_WEAPON3 {
        c.weapon_slot3
    } else if field == F_EXEC_KEY {
        c.execution_hotkey
    } else if field == F_ROUTER {
        c.router_hotkey
    } else {
        ""@
    }
}

/// The configuration with another binding in a field.
pub open spec fn with_binding(c: ConfigView, field: usize, name: Seq<char>) -> ConfigView {
    if field == F_WEAPON1 {
        ConfigView { weapon_slot1: name, ..c }
    } else if field == F_WEAPON2 {
        ConfigView { weapon_slot2: name, ..c }
    } else if field == F_WEAPON3 {
        ConfigView { weapon_slot3: name, ..c }
    } else if field == F_EXEC_KEY {
        ConfigView { execution_hotkey: name, ..c }
    } else if field == F_ROUTER {
        ConfigView { router_hotkey: name, ..c }
    } else {
        c
    }
}

/// The number that a field holds; zero for a field that holds none.
pub open spec fn number_of(c: ConfigView, field: usize) -> u64 {
    if field == F_SWITCH {
        c.weapon_switch_interval_ms
    } else if field == F_SWITCH_OFF {
        c.weapon_switch_interval_offset_ms
    } else if field == F_SHOOT {
        c.shoot_interval_ms
    } else if field == F_SHOOT_OFF {
        c.shoot_interval_offset_ms
    } else {
        0
    }
}

/// The configuration with another number in a field.
pub open spec fn with_number(c: ConfigView, field: usize, v: u64) -> ConfigView {
    if field == F_SWITCH {
        ConfigView { weapon_switch_interval_ms: v, ..c }
    } else if field == F_SWITCH_OFF {
        ConfigView { weapon_switch_interval_offset_ms: v, ..c }
    } else if field == F_SHOOT {
        ConfigView { shoot_interval_ms: v, ..c }
    } else if field == F_SHOOT_OFF {
        ConfigView { shoot_interval_offset_ms: v, ..c }
    } else {
        c
    }
}

/// The fields with a main interval, which must not be zero.
pub open spec fn is_interval(field: usize) -> bool {
    field == F_SWITCH || field == F_SHOOT
}

/// The fields with a random offset.
pub open spec fn is_offset(field: usize) -> bool {
    field == F_SWITCH_OFF || field == F_SHOOT_OFF
}

/// Tells whether a field holds a random offset.
pub fn is_offset_field(field: usize) -> (r: bool)
    ensures
        r == is_offset(field),
{
    field == F_SWITCH_OFF || field == F_SHOOT_OFF
}

/// Tells whether a field holds a main interval.
pub fn is_interval_field(field: usize) -> (r: bool)
    ensures
        r == is_interval(field),
{
    field == F_SWITCH || field == F_SHOOT
}

/// The kind of a field.
pub fn field_kind(field: usize) -> (r: FieldKind)
    ensures
        r == kind_of(field),
{
    if field <= F_ROUTER {
        FieldKind::Binding
    } else if field == F_ORDER {
        FieldKind::Order
    } else if field <= F_RANDOM {
        FieldKind::Toggle
    } else if field <= F_SHOOT_OFF {
        FieldKind::Number
    } else {
        FieldKind::Action
    }
}

/// Puts a binding into a field.
pub fn set_binding(c: &mut Config, field: usize, name: String)
    ensures
        final(c)@ == with_binding(old(c)@, field, name@),
{
    if field == F_WEAPON1 {
        c.weapon_slot1 = name;
    } else if field == F_WEAPON2 {
        c.weapon_slot2 = name;
    } else if field == F_WEAPON3 {
        c.weapon_slot3 = name;
    } else if field == F_EXEC_KEY {
        c.execution_hotkey = name;
    } else if field == F_ROUTER {
        c.router_hotkey = name;
    }
}

/// The number in a field.
pub fn numeric_value(c: &Config, field: usize) -> (r: u64)
    ensures
        r == number_of(c@, field),
{
    if field == F_SWITCH {
        c.weapon_switch_interval_ms
    } else if field == F_SWITCH_OFF {
        c.weapon_switch_interval_offset_ms
    } else if field == F_SHOOT {
        c.shoot_interval_ms
    } else if field == F_SHOOT_OFF {
        c.shoot_interval_offset_ms
    } else {
        0
    }
}

/// Puts a number into a field.
pub fn set_numeric(c: &mut Config, field: usize, v: u64)
    ensures
        final(c)@ == with_number(old(c)@, field, v),
{
    if field == F_SWITCH {
        c.weapon_switch_interval_ms = v;
    } else if field == F_SWITCH_OFF {
        c.weapon_switch_interval_offset_ms = v;
    } else if field == F_SHOOT {
        c.shoot_interval_ms = v;
    } else if field == F_SHOOT_OFF {
        c.shoot_interval_offset_ms = v;
    }
}

/// Another field, the first one from `i` on, that holds the same binding.
pub open spec fn holder(c: ConfigView, field: usize, name: Seq<char>, i: usize) -> Option<usize>
    decreases F_ROUTER + 1 - i,
{
    if i > F_ROUTER {
        None
    } else if i != field && binding_of(c, i) == name {
        Some(i)
    } else {
        holder(c, field, name, (i + 1) as usize)
    }
}

/// How a binding field is called in a message.
pub open spec fn binding_label(l: Lang, field: usize) -> Seq<char> {
    if field == F_WEAPON1 {
        lang::pick(l, "武器槽#1"@, "Weapon Slot #1"@)
    } else if field == F_WEAPON2 {
        lang::pick(l, "武器槽#2"@, "Weapon Slot #2"@)
    } else if field == F_WEAPON3 {
        lang::pick(l, "武器槽#3"@, "Weapon Slot #3"@)
    } else if field == F_EXEC_KEY {
        lang::pick(l, "执行热键"@, "Execution Hotkey"@)
    } else {
        lang::pick(l, "速切配置热键"@, "Quick-switch Hotkey"@)
    }
}

fn name_of_binding(l: Lang, field: usize) -> (r: &'static str)
    ensures
        r@ == binding_label(l, field),
{
    if field == F_WEAPON1 {
        lang::tr(l, "武器槽#1", "Weapon Slot #1")
    } else if field == F_WEAPON2 {
        lang::tr(l, "武器槽#2", "Weapon Slot #2")
    } else if field == F_WEAPON3 {
        lang::tr(l, "武器槽#3", "Weapon Slot #3")
    } else if field == F_EXEC_KEY {
        lang::tr(l, "执行热键", "Execution Hotkey")
    } else {
        lang::tr(l, "速切配置热键", "Quick-switch Hotkey")
    }
}

fn get_binding(c: &Config, field: usize) -> (r: &str)
    ensures
        r@ == binding_of(c@, field),
{
    if field == F_WEAPON1 {
        c.weapon_slot1.as_str()
    } else if field == F_WEAPON2 {
        c.weapon_slot2.as_str()
    } else if field == F_WEAPON3 {
        c.weapon_slot3.as_str()
    } else if field == F_EXEC_KEY {
        c.execution_hotkey.as_str()
    } else if field == F_ROUTER {
        c.router_hotkey.as_str()
    } else {
        ""
    }
}

/// Finds out whether another field holds the binding already, and gives the
/// name of the first one that does.
pub fn find_binding_conflict(l: Lang, c: &Config, field: usize, name: &str) -> (r: Option<
    &'static str,
>)
    ensures
        match holder(c@, field, name@, 0) {
            Some(i) => r matches Some(s) && s@ == binding_label(l, i),
            None => r is None,
        },
{
    let mut i: usize = 0;
    while i <= F_ROUTER
        invariant
            i <= F_ROUTER + 1,
            holder(c@, field, name@, 0) == holder(c@, field, name@, i),
        decreases F_ROUTER + 1 - i,
    {
        if i != field && text::same_text(get_binding(c, i), name) {
            return Some(name_of_binding(l, i));
        }
        i = i + 1;
    }
    None
}

/// How a field is called on the screen. The entry that switches the language is
/// called in the language that it switches to.
pub open spec fn label_of(l: Lang, field: usize) -> Seq<char> {
    if field == F_WEAPON1 {
        lang::pick(l, "武器槽#1绑定"@, "Weapon Slot #1"@)
    } else if field == F_WEAPON2 {
        lang::pick(l, "武器槽#2绑定"@, "Weapon Slot #2"@)
    } else if field == F_WEAPON3 {
        lang::pick(l, "武器槽#3绑定"@, "Weapon Slot #3"@)
    } else if field == F_EXEC_KEY {
        lang::pick(l, "执行热键绑定"@, "Execution Hotkey"@)
    } else if field == F_ROUTER {
        lang::pick(l, "速切配置热键"@, "Quick-switch Hotkey"@)
    } else if field == F_ORDER {
        lang::pick(l, "执行集合"@, "Execution Set"@)
    } else if field == F_MODE {
        lang::pick(l, "执行方式"@, "Execution Mode"@)
    } else if field == F_RANDOM {
        lang::pick(l, "乱序执行"@, "Random Order"@)
    } else if field == F_SWITCH {
        lang::pick(l, "切换武器间隔(ms)"@, "Switch Weapon Interval (ms)"@)
    } else if field == F_SWITCH_OFF {
        lang::pick(l, "切换武器间隔偏移区间(ms)"@, "Switch Weapon Jitter (ms)"@)
    } else if field == F_SHOOT {
        lang::pick(l, "射击间隔(ms)"@, "Shoot Interval (ms)"@)
    } else if field == F_SHOOT_OFF {
        lang::pick(l, "射击间隔偏移区间(ms)"@, "Shoot Jitter (ms)"@)
    } else if field == A_EXPORT {
        lang::pick(l, "导出配置"@, "Export Config"@)
    } else if field == A_LOAD {
        lang::pick(l, "读取配置"@, "Load Config"@)
    } else if field == A_ROUTER {
        lang::pick(l, "载入路由"@, "Load Router"@)
    } else {
        lang::pick(l, "Switch Language"@, "语言切换"@)
    }
}

/// The name of an execution mode.
pub open spec fn mode_label(l: Lang, mode: ExecutionMode) -> Seq<char> {
    match mode {
        ExecutionMode::Hold => lang::pick(l, "长按"@, "Hold"@),
        ExecutionMode::Toggle => lang::pick(l, "切换"@, "Toggle"@),
    }
}

/// The name of a switch position.
pub open spec fn switch_label(l: Lang, on: bool) -> Seq<char> {
    if on {
        lang::pick(l, "开"@, "ON"@)
    } else {
        lang::pick(l, "关"@, "OFF"@)
    }
}

/// What a field shows of the configuration.
pub open spec fn value_of(l: Lang, c: ConfigView, field: usize) -> Seq<char> {
    if field <= F_ROUTER {
        binding_of(c, field)
    } else if field == F_ORDER {
        c.execution_order
    } else if field == F_MODE {
        mode_label(l, c.execution_mode)
    } else if field == F_RANDOM {
        switch_label(l, c.random_execution)
    } else if field <= F_SHOOT_OFF {
        text::decimal(number_of(c, field) as nat)
    } else {
        ""@
    }
}

/// The name of an execution mode.
pub fn mode_name(l: Lang, mode: ExecutionMode) -> (r: &'static str)
    ensures
        r@ == mode_label(l, mode),
{
    match mode {
        ExecutionMode::Hold => lang::tr(l, "长按", "Hold"),
        ExecutionMode::Toggle => lang::tr(l, "切换", "Toggle"),
    }
}

/// The name of a switch position.
pub fn switch_name(l: Lang, on: bool) -> (r: &'static str)
    ensures
        r@ == switch_label(l, on),
{
    if on {
        lang::tr(l, "开", "ON")
    } else {
        lang::tr(l, "关", "OFF")
    }
}

fn label_text(l: Lang, field: usize) -> (r: &'static str)
    ensures
        r@ == label_of(l, field),
{
    if field == F_WEAPON1 {
        lang::tr(l, "武器槽#1绑定", "Weapon Slot #1")
    } else if field == F_WEAPON2 {
        lang::tr(l, "武器槽#2绑定", "Weapon Slot #2")
    } else if field == F_WEAPON3 {
        lang::tr(l, "武器槽#3绑定", "Weapon Slot #3")
    } else if field == F_EXEC_KEY {
        lang::tr(l, "执行热键绑定", "Execution Hotkey")
    } else if field == F_ROUTER {
        lang::tr(l, "速切配置热键", "Quick-switch Hotkey")
    } else if field == F_ORDER {
        lang::tr(l, "执行集合", "Execution Set")
    } else if field == F_MODE {
        lang::tr(l, "执行方式", "Execution Mode")
    } else if field == F_RANDOM {
        lang::tr(l, "乱序执行", "Random Order")
    } else if field == F_SWITCH {
        lang::tr(l, "切换武器间隔(ms)", "Switch Weapon Interval (ms)")
    } else if field == F_SWITCH_OFF {
        lang::tr(l, "切换武器间隔偏移区间(ms)", "Switch Weapon Jitter (ms)")
    } else if field == F_SHOOT {
        lang::tr(l, "射击间隔(ms)", "Shoot Interval (ms)")
    } else if field == F_SHOOT_OFF {
        lang::tr(l, "射击间隔偏移区间(ms)", "Shoot Jitter (ms)")
    } else if field == A_EXPORT {
        lang::tr(l, "导出配置", "Export Config")
    } else if field == A_LOAD {
        lang::tr(l, "读取配置", "Load Config")
    } else if field == A_ROUTER {
        lang::tr(l, "载入路由", "Load Router")
    } else {
        lang::tr(l, "Switch Language", "语言切换")
    }
}

/// The name of a field, what it shows, and its kind.
pub fn field(l: Lang, c: &Config, fi: usize) -> (r: (&'static str, String, FieldKind))
    requires
        fi < TOTAL_FIELDS,
    ensures
        r.0@ == label_of(l, fi),
        r.1@ == value_of(l, c@, fi),
        r.2 == kind_of(fi),
{
    let value = if fi <= F_ROUTER {
        get_binding(c, fi).to_string()
    } else if fi == F_ORDER {
        c.execution_order.clone()
    } else if fi == F_MODE {
        mode_name(l, c.execution_mode).to_string()
    } else if fi == F_RANDOM {
        switch_name(l, c.random_execution).to_string()
    } else if fi <= F_SHOOT_OFF {
        text::decimal_of(numeric_value(c, fi))
    } else {
        "".to_string()
    };
    (label_text(l, fi), value, field_kind(fi))
}

/// What was put into a field is found there, and nowhere else.
pub proof fn fields_do_not_overlap(
    c: ConfigView,
    field: usize,
    other: usize,
    name: Seq<char>,
    v: u64,
)
    requires
        field < TOTAL_FIELDS,
        other < TOTAL_FIELDS,
    ensures
        field <= F_ROUTER ==> binding_of(with_binding(c, field, name), field) == name,
        F_SWITCH <= field <= F_SHOOT_OFF ==> number_of(with_number(c, field, v), field) == v,
        other != field ==> binding_of(with_binding(c, field, name), other) == binding_of(c, other),
        other != field ==> number_of(with_number(c, field, v), other) == number_of(c, other),
        number_of(with_binding(c, field, name), other) == number_of(c, other),
        binding_of(with_number(c, field, v), other) == binding_of(c, other),
{
}

} // verus!
