//! The configuration and its validation.
//!
//! A main interval of zero would make the macro loop spin, and an execution
//! order outside its format would be ignored in part without a word; both are
//! rejected with a reason. The bindings are not validated: an empty one means
//! that the slot is not used.

use vstd::prelude::*;

use crate::lang;
use crate::lang::Lang;
use crate::text;

verus! {

/// What the execution hotkey does.
#[derive(Clone, Copy, PartialEq, Eq, Debug, Structural)]
pub enum ExecutionMode {
    /// The macro runs while the hotkey is held.
    Hold,
    /// Each press starts or stops the macro.
    Toggle,
}

impl Default for ExecutionMode {
    fn default() -> (r: Self)
        ensures
            r == ExecutionMode::Toggle,
    {
        ExecutionMode::Toggle
    }
}

/// The configuration.
#[derive(Debug)]
pub struct Config {
    pub weapon_slot1: String,
    pub weapon_slot2: String,
    pub weapon_slot3: String,
    pub execution_hotkey: String,
    pub router_hotkey: String,
    pub execution_order: String,
    pub execution_mode: ExecutionMode,
    pub random_execution: bool,
    pub weapon_switch_interval_ms: u64,
    pub weapon_switch_interval_offset_ms: u64,
    pub shoot_interval_ms: u64,
    pub shoot_interval_offset_ms: u64,
}

/// What a configuration holds.
pub struct ConfigView {
    pub weapon_slot1: Seq<char>,
    pub weapon_slot2: Seq<char>,
    pub weapon_slot3: Seq<char>,
    pub execution_hotkey: Seq<char>,
    pub router_hotkey: Seq<char>,
    pub execution_order: Seq<char>,
    pub execution_mode: ExecutionMode,
    pub random_execution: bool,
    pub weapon_switch_interval_ms: u64,
    pub weapon_switch_interval_offset_ms: u64,
    pub shoot_interval_ms: u64,
    pub shoot_interval_offset_ms: u64,
}

impl View for Config {
    type V = ConfigView;

    open spec fn view(&self) -> ConfigView {
        ConfigView {
            weapon_slot1: self.weapon_slot1@,
            weapon_slot2: self.weapon_slot2@,
            weapon_slot3: self.weapon_slot3@,
            execution_hotkey: self.execution_hotkey@,
            router_hotkey: self.router_hotkey@,
            execution_order: self.execution_order@,
            execution_mode: self.execution_mode,
            random_execution: self.random_execution,
            weapon_switch_interval_ms: self.weapon_switch_interval_ms,
            weapon_switch_interval_offset_ms: self.weapon_switch_interval_offset_ms,
            shoot_interval_ms: self.shoot_interval_ms,
            shoot_interval_offset_ms: self.shoot_interval_offset_ms,
        }
    }
}

/// The configuration that is used where none was made.
pub open spec fn default_config() -> ConfigView {
    ConfigView {
        weapon_slot1: "2"@,
        weapon_slot2: "3"@,
        weapon_slot3: "4"@,
        execution_hotkey: "LALT"@,
        router_hotkey: "RALT"@,
        execution_order: "ABC"@,
        execution_mode: ExecutionMode::Toggle,
        random_execution: false,
        weapon_switch_interval_ms: 100,
        weapon_switch_interval_offset_ms: 20,
        shoot_interval_ms: 50,
        shoot_interval_offset_ms: 10,
    }
}

impl Default for Config {
    fn default() -> (r: Self)
        ensures
            r@ == default_config(),
    {
        Config {
            weapon_slot1: "2".to_string(),
            weapon_slot2: "3".to_string(),
            weapon_slot3: "4".to_string(),
            execution_hotkey: "LALT".to_string(),
            router_hotkey: "RALT".to_string(),
            execution_order: "ABC".to_string(),
            execution_mode: ExecutionMode::Toggle,
            random_execution: false,
            weapon_switch_interval_ms: 100,
            weapon_switch_interval_offset_ms: 20,
            shoot_interval_ms: 50,
            shoot_interval_offset_ms: 10,
        }
    }
}

impl Clone for Config {
    fn clone(&self) -> (r: Self)
        ensures
            r == *self,
    {
        Config {
            weapon_slot1: self.weapon_slot1.clone(),
            weapon_slot2: self.weapon_slot2.clone(),
            weapon_slot3: self.weapon_slot3.clone(),
            execution_hotkey: self.execution_hotkey.clone(),
            router_hotkey: self.router_hotkey.clone(),
            execution_order: self.execution_order.clone(),
            execution_mode: self.execution_mode,
            random_execution: self.random_execution,
            weapon_switch_interval_ms: self.weapon_switch_interval_ms,
            weapon_switch_interval_offset_ms: self.weapon_switch_interval_offset_ms,
            shoot_interval_ms: self.shoot_interval_ms,
            shoot_interval_offset_ms: self.shoot_interval_offset_ms,
        }
    }
}

// ---------------------------------------------------------------------------
// Validation
// ---------------------------------------------------------------------------

pub open spec fn is_slot_letter(c: char) -> bool {
    c == 'A' || c == 'B' || c == 'C'
}

/// An execution order: one to three of the letters `A`, `B` and `C`, none of
/// them twice.
pub open spec fn valid_order(s: Seq<char>) -> bool {
    &&& 1 <= s.len() <= 3
    &&& forall|i: int| 0 <= i < s.len() ==> is_slot_letter(#[trigger] s[i])
    &&& s.no_duplicates()
}

/// A configuration that may be used.
pub open spec fn valid_config(c: ConfigView) -> bool {
    &&& c.shoot_interval_ms > 0
    &&& c.weapon_switch_interval_ms > 0
    &&& valid_order(c.execution_order)
}

/// What is wrong with a configuration.
#[derive(Clone, Copy, PartialEq, Eq, Debug, Structural)]
pub enum Fault {
    /// The shooting interval is zero.
    ShootIntervalZero,
    /// The switching interval is zero.
    SwitchIntervalZero,
    /// The execution order takes no byte or more than three.
    OrderLength,
    /// The execution order holds a byte that is none of the three letters.
    OrderLetter(u8),
    /// The execution order holds a letter for the second time.
    OrderRepeat(u8),
}

pub open spec fn is_slot_byte(b: u8) -> bool {
    b == 65 || b == 66 || b == 67
}

/// The fault at the first byte of an execution order that is no slot letter or
/// that stood there before.
pub open spec fn first_order_fault(b: Seq<u8>) -> Option<Fault>
    decreases b.len(),
{
    if b.len() == 0 {
        None
    } else {
        match first_order_fault(b.drop_last()) {
            Some(f) => Some(f),
            None => if !is_slot_byte(b.last()) {
                Some(Fault::OrderLetter(b.last()))
            } else if b.drop_last().contains(b.last()) {
                Some(Fault::OrderRepeat(b.last()))
            } else {
                None
            },
        }
    }
}

/// The first fault of an execution order.
pub open spec fn order_fault(order: Seq<char>) -> Option<Fault> {
    let b = vstd::utf8::encode_utf8(order);
    if b.len() == 0 || b.len() > 3 {
        Some(Fault::OrderLength)
    } else {
        first_order_fault(b)
    }
}

/// The first fault of a configuration: the intervals come before the order.
pub open spec fn config_fault(c: ConfigView) -> Option<Fault> {
    if c.shoot_interval_ms == 0 {
        Some(Fault::ShootIntervalZero)
    } else if c.weapon_switch_interval_ms == 0 {
        Some(Fault::SwitchIntervalZero)
    } else {
        order_fault(c.execution_order)
    }
}

/// The reason that is shown for a fault.
pub open spec fn fault_text(l: Lang, order: Seq<char>, f: Fault) -> Seq<char> {
    match f {
        Fault::ShootIntervalZero => lang::pick(
            l,
            "shoot_interval 不能为 0，请设置一个正整数（单位 ms）"@,
            "shoot_interval cannot be 0; set a positive integer (ms)"@,
        ),
        Fault::SwitchIntervalZero => lang::pick(
            l,
            "switch_interval 不能为 0，请设置一个正整数（单位 ms）"@,
            "switch_interval cannot be 0; set a positive integer (ms)"@,
        ),
        Fault::OrderLength => lang::message(
            l,
            "execution_order 长度须在 1~3 之间，当前: {}"@,
            "execution_order length must be 1~3, current: {}"@,
            seq![order],
        ),
        Fault::OrderLetter(b) => lang::message(
            l,
            "execution_order 含非法字符 {}，只允许 A/B/C"@,
            "execution_order contains invalid char {}; only A/B/C allowed"@,
            seq![seq![b as char]],
        ),
        Fault::OrderRepeat(b) => lang::message(
            l,
            "execution_order 含重复字符 {}"@,
            "execution_order contains duplicate char {}"@,
            seq![seq![b as char]],
        ),
    }
}

/// There is always a reason to show.
pub proof fn faults_have_a_text(l: Lang, order: Seq<char>, f: Fault)
    ensures
        fault_text(l, order, f).len() > 0,
{
    reveal_strlit("shoot_interval 不能为 0，请设置一个正整数（单位 ms）");
    reveal_strlit("shoot_interval cannot be 0; set a positive integer (ms)");
    reveal_strlit("switch_interval 不能为 0，请设置一个正整数（单位 ms）");
    reveal_strlit("switch_interval cannot be 0; set a positive integer (ms)");
    reveal_strlit("execution_order 长度须在 1~3 之间，当前: {}");
    reveal_strlit("execution_order length must be 1~3, current: {}");
    reveal_strlit("execution_order 含非法字符 {}，只允许 A/B/C");
    reveal_strlit("execution_order contains invalid char {}; only A/B/C allowed");
    reveal_strlit("execution_order 含重复字符 {}");
    reveal_strlit("execution_order contains duplicate char {}");
}

fn letter_text(b: u8) -> (r: String)
    ensures
        r@ == seq![b as char],
{
    let mut out: String = String::new();
    out.push(b as char);
    proof {
        assert(out@ =~= seq![b as char]);
    }
    out
}

/// Finds the first fault of an execution order.
pub fn find_order_fault(order: &str) -> (r: Option<Fault>)
    ensures
        r == order_fault(order@),
        r matches Some(f) ==> f is OrderLength || f is OrderLetter || f is OrderRepeat,
{
    let b = order.as_bytes_vec();
    if b.len() == 0 || b.len() > 3 {
        return Some(Fault::OrderLength);
    }
    let mut seen_a: bool = false;
    let mut seen_b: bool = false;
    let mut seen_c: bool = false;
    let mut i: usize = 0;
    while i < b.len()
        invariant
            i <= b@.len(),
            1 <= b@.len() <= 3,
            b@ == vstd::utf8::encode_utf8(order@),
            first_order_fault(b@.take(i as int)) is None,
            seen_a == b@.take(i as int).contains(65u8),
            seen_b == b@.take(i as int).contains(66u8),
            seen_c == b@.take(i as int).contains(67u8),
        decreases b@.len() - i,
    {
        let x: u8 = b[i];
        let ghost before = b@.take(i as int);
        let ghost now = b@.take(i + 1);
        proof {
            assert(now.drop_last() =~= before);
            assert(now.last() == x);
            assert(now =~= before.push(x));
            lemma_fault_prefix(b@, i + 1);
            assert forall|y: u8| #[trigger] now.contains(y) == (before.contains(y) || y == x) by {
                if before.contains(y) {
                    let k = choose|k: int| 0 <= k < before.len() && before[k] == y;
                    assert(now[k] == y);
                }
                assert(now[i as int] == x);
            }
        }
        let again = if x == 65 {
            seen_a
        } else if x == 66 {
            seen_b
        } else if x == 67 {
            seen_c
        } else {
            return Some(Fault::OrderLetter(x));
        };
        if again {
            return Some(Fault::OrderRepeat(x));
        }
        if x == 65 {
            seen_a = true;
        } else if x == 66 {
            seen_b = true;
        } else {
            seen_c = true;
        }
        i = i + 1;
    }
    proof {
        assert(b@.take(i as int) =~= b@);
    }
    None
}

proof fn lemma_fault_prefix(b: Seq<u8>, k: int)
    requires
        0 <= k <= b.len(),
    ensures
        first_order_fault(b.take(k)) is Some ==> first_order_fault(b) == first_order_fault(
            b.take(k),
        ),
    decreases b.len() - k,
{
    if k < b.len() {
        lemma_fault_prefix(b, k + 1);
        assert(b.take(k + 1).drop_last() =~= b.take(k));
    } else {
        assert(b.take(k) =~= b);
    }
}

/// Tells whether a text is an execution order.
pub fn is_valid_order(s: &str) -> (r: bool)
    ensures
        r == valid_order(s@),
{
    proof {
        order_faults_are_exact(s@);
    }
    find_order_fault(s).is_none()
}

impl Config {
    /// Validates the configuration; the reason for a rejection is in the given
    /// language.
    pub fn validate(&self, l: Lang) -> (r: Result<(), String>)
        ensures
            r is Ok <==> valid_config(self@),
            match config_fault(self@) {
                None => r is Ok,
                Some(f) => r matches Err(e) && e@ == fault_text(l, self@.execution_order, f),
            },
    {
        proof {
            order_faults_are_exact(self@.execution_order);
        }
        if self.shoot_interval_ms == 0 {
            return Err(
                lang::tr(
                    l,
                    "shoot_interval 不能为 0，请设置一个正整数（单位 ms）",
                    "shoot_interval cannot be 0; set a positive integer (ms)",
                ).to_string(),
            );
        }
        if self.weapon_switch_interval_ms == 0 {
            return Err(
                lang::tr(
                    l,
                    "switch_interval 不能为 0，请设置一个正整数（单位 ms）",
                    "switch_interval cannot be 0; set a positive integer (ms)",
                ).to_string(),
            );
        }
        match find_order_fault(self.execution_order.as_str()) {
            None => Ok(()),
            Some(Fault::OrderLetter(b)) => {
                let shown = letter_text(b);
                Err(
                    lang::fmt1(
                        l,
                        "execution_order 含非法字符 {}，只允许 A/B/C",
                        "execution_order contains invalid char {}; only A/B/C allowed",
                        shown.as_str(),
                    ),
                )
            },
            Some(Fault::OrderRepeat(b)) => {
                let shown = letter_text(b);
                Err(
                    lang::fmt1(
                        l,
                        "execution_order 含重复字符 {}",
                        "execution_order contains duplicate char {}",
                        shown.as_str(),
                    ),
                )
            },
            Some(_) => Err(
                lang::fmt1(
                    l,
                    "execution_order 长度须在 1~3 之间，当前: {}",
                    "execution_order length must be 1~3, current: {}",
                    self.execution_order.as_str(),
                ),
            ),
        }
    }
}

/// The reason that is given where a configuration cannot be written as JSON.
pub fn serialization_error(l: Lang, reason: &str) -> (r: String)
    ensures
        r@ == lang::message(l, "序列化失败: {}"@, "Serialization failed: {}"@, seq![reason@]),
{
    lang::fmt1(l, "序列化失败: {}", "Serialization failed: {}", reason)
}

/// What the attempt to read a configuration gave: the configuration, or the
/// reason why there is none.
pub open spec fn read_view(r: Result<Config, String>) -> Result<ConfigView, Seq<char>> {
    match r {
        Ok(c) => Ok(c@),
        Err(e) => Err(e@),
    }
}

/// The configuration that was read, where it is valid; else the reason why it
/// cannot be used.
pub open spec fn admitted(
    l: Lang,
    r: Result<ConfigView, Seq<char>>,
) -> Result<ConfigView, Seq<char>> {
    match r {
        Err(e) => Err(e),
        Ok(c) => match config_fault(c) {
            None => Ok(c),
            Some(f) => Err(fault_text(l, c.execution_order, f)),
        },
    }
}

/// Lets a configuration that was read through only where it is valid.
pub fn accept_read(l: Lang, parsed: Result<Config, String>) -> (r: Result<Config, String>)
    ensures
        read_view(r) == admitted(l, read_view(parsed)),
        r matches Ok(c) ==> valid_config(c@),
{
    match parsed {
        Err(e) => Err(e),
        Ok(c) => match c.validate(l) {
            Ok(_) => Ok(c),
            Err(e) => Err(e),
        },
    }
}

// ---------------------------------------------------------------------------
// Laws
// ---------------------------------------------------------------------------

/// An execution order has no fault exactly where it is one to three of the
/// letters `A`, `B` and `C`, none of them twice.
pub proof fn order_faults_are_exact(order: Seq<char>)
    ensures
        order_fault(order) is None <==> valid_order(order),
{
    let b = vstd::utf8::encode_utf8(order);
    if valid_order(order) {
        assert(vstd::utf8::is_ascii_chars(order));
        vstd::utf8::is_ascii_chars_encode_utf8(order);
        assert(b.len() == order.len());
        assert forall|i: int| 0 <= i < b.len() implies b[i] == order[i] as u8 by {}
        lemma_no_fault(b);
    }
    if order_fault(order) is None {
        lemma_no_fault_shape(b);
        lemma_bytes_are_chars(order);
        assert forall|i: int| 0 <= i < order.len() implies is_slot_letter(#[trigger] order[i]) by {
            assert(b[i] as char == order[i]);
            assert(is_slot_byte(b[i]));
        }
        assert forall|i: int, j: int|
            0 <= i < order.len() && 0 <= j < order.len() && i != j implies order[i] != order[j] by {
            assert(b[i] != b[j]);
            assert(b[i] as char == order[i] && b[j] as char == order[j]);
        }
    }
}

proof fn lemma_no_fault(b: Seq<u8>)
    requires
        forall|i: int| 0 <= i < b.len() ==> is_slot_byte(#[trigger] b[i]),
        b.no_duplicates(),
    ensures
        first_order_fault(b) is None,
    decreases b.len(),
{
    if b.len() > 0 {
        let p = b.drop_last();
        assert forall|i: int| 0 <= i < p.len() implies is_slot_byte(#[trigger] p[i]) by {
            assert(p[i] == b[i]);
        }
        lemma_no_fault(p);
        assert(is_slot_byte(b[b.len() - 1]));
    }
}

proof fn lemma_no_fault_shape(b: Seq<u8>)
    requires
        first_order_fault(b) is None,
    ensures
        forall|i: int| 0 <= i < b.len() ==> is_slot_byte(#[trigger] b[i]),
        b.no_duplicates(),
    decreases b.len(),
{
    if b.len() > 0 {
        let p = b.drop_last();
        lemma_no_fault_shape(p);
        assert forall|i: int| 0 <= i < b.len() implies is_slot_byte(#[trigger] b[i]) by {
            if i < p.len() {
                assert(p[i] == b[i]);
            }
        }
        assert forall|i: int, j: int| 0 <= i < b.len() && 0 <= j < b.len() && i != j implies b[i]
            != b[j] by {
            if i < p.len() && j < p.len() {
                assert(p[i] != p[j]);
            } else if i < p.len() {
                assert(p[i] == b[i]);
                assert(p.contains(p[i]));
            } else {
                assert(p[j] == b[j]);
                assert(p.contains(p[j]));
            }
        }
    }
}

proof fn lemma_bytes_are_chars(s: Seq<char>)
    requires
        forall|i: int|
            0 <= i < vstd::utf8::encode_utf8(s).len() ==> is_slot_byte(#[trigger] vstd::utf8::encode_utf8(s)[i]),
    ensures
        vstd::utf8::encode_utf8(s).len() == s.len(),
        forall|i: int| 0 <= i < s.len() ==> (#[trigger] vstd::utf8::encode_utf8(s)[i]) as char == s[i],
    decreases s.len(),
{
    if s.len() > 0 {
        let b = vstd::utf8::encode_utf8(s);
        let rest = s.drop_first();
        vstd::utf8::encode_utf8_first_scalar(s);
        let first = vstd::utf8::encode_scalar(s[0] as u32);
        assert(b == first + vstd::utf8::encode_utf8(rest));
        assert(b[0] == first[0]);
        assert(is_slot_byte(b[0]));
        assert(first.len() == 1);
        let x: u8 = b[0];
        assert(x & 0x7f == x) by (bit_vector)
            requires
                x <= 127,
        ;
        assert(vstd::utf8::decode_first_codepoint(b) == (x & 0x7f) as u32);
        vstd::utf8::char_u32_cast(s[0], x as u32);
        assert(s[0] == x as char);
        assert forall|i: int| 0 <= i < vstd::utf8::encode_utf8(rest).len() implies is_slot_byte(
            #[trigger] vstd::utf8::encode_utf8(rest)[i],
        ) by {
            assert(b[i + 1] == vstd::utf8::encode_utf8(rest)[i]);
        }
        lemma_bytes_are_chars(rest);
        assert forall|i: int| 0 <= i < s.len() implies (#[trigger] b[i]) as char == s[i] by {
            if i > 0 {
                assert(b[i] == vstd::utf8::encode_utf8(rest)[i - 1]);
                assert(rest[i - 1] == s[i]);
            }
        }
    }
}

/// The default configuration is valid.
pub proof fn default_config_is_valid()
    ensures
        valid_config(default_config()),
{
    reveal_strlit("ABC");
    let s = "ABC"@;
    assert(s[0] == 'A' && s[1] == 'B' && s[2] == 'C');
    assert(valid_order(s));
}

/// The rules for a configuration: both main intervals are positive, and the
/// execution order is one to three of the letters `A`, `B` and `C`, none of them
/// twice. Nothing else is asked of it.
pub open spec fn keeps_the_rules(c: ConfigView) -> bool {
    &&& c.shoot_interval_ms >= 1
    &&& c.weapon_switch_interval_ms >= 1
    &&& c.execution_order.len() >= 1
    &&& c.execution_order.len() <= 3
    &&& forall|i: int|
        0 <= i < c.execution_order.len() ==> c.execution_order[i] == 'A' || c.execution_order[i]
            == 'B' || #[trigger] c.execution_order[i] == 'C'
    &&& forall|i: int, j: int|
        0 <= i < j < c.execution_order.len() ==> c.execution_order[i] != c.execution_order[j]
}

/// A configuration that was read is let through, unchanged, exactly where it
/// keeps the rules; one that could not be read is refused with the reason.
pub proof fn the_rules_decide(l: Lang, c: ConfigView, e: Seq<char>)
    ensures
        keeps_the_rules(c) ==> admitted(l, Ok(c)) == Ok::<ConfigView, Seq<char>>(c),
        !keeps_the_rules(c) ==> admitted(l, Ok(c)) is Err,
        admitted(l, Err(e)) == Err::<ConfigView, Seq<char>>(e),
        keeps_the_rules(c) <==> valid_config(c),
{
    let o = c.execution_order;
    order_faults_are_exact(o);
    if keeps_the_rules(c) {
        assert forall|i: int| 0 <= i < o.len() implies is_slot_letter(#[trigger] o[i]) by {}
        assert forall|i: int, j: int| 0 <= i < o.len() && 0 <= j < o.len() && i != j implies o[i]
            != o[j] by {
            if i < j {
                assert(o[i] != o[j]);
            } else {
                assert(o[j] != o[i]);
            }
        }
        assert(valid_order(o));
    }
    if valid_config(c) {
        assert forall|i: int| 0 <= i < o.len() implies o[i] == 'A' || o[i] == 'B'
            || #[trigger] o[i] == 'C' by {
            assert(is_slot_letter(o[i]));
        }
    }
}

/// A main interval of zero is named as the reason, the shooting interval first.
pub proof fn a_zero_interval_is_named(l: Lang, c: ConfigView)
    ensures
        c.shoot_interval_ms == 0 ==> admitted(l, Ok(c)) == Err::<ConfigView, Seq<char>>(
            match l {
                Lang::Zh => "shoot_interval 不能为 0，请设置一个正整数（单位 ms）"@,
                Lang::En => "shoot_interval cannot be 0; set a positive integer (ms)"@,
            },
        ),
        c.shoot_interval_ms > 0 && c.weapon_switch_interval_ms == 0 ==> admitted(l, Ok(c)) == Err::<
            ConfigView,
            Seq<char>,
        >(
            match l {
                Lang::Zh => "switch_interval 不能为 0，请设置一个正整数（单位 ms）"@,
                Lang::En => "switch_interval cannot be 0; set a positive integer (ms)"@,
            },
        ),
{
}

/// A character of an execution order that is none of the three letters is named
/// as the reason, and so is a letter that stands there for the second time: the
/// first one of either, where the order takes up to three ASCII characters.
pub proof fn the_first_wrong_letter_is_named(order: Seq<char>, k: int)
    requires
        1 <= order.len() <= 3,
        0 <= k < order.len(),
        vstd::utf8::is_ascii_chars(order),
        forall|i: int|
            0 <= i < k ==> (#[trigger] order[i] == 'A' || order[i] == 'B' || order[i] == 'C'),
        forall|i: int, j: int| 0 <= i < j < k ==> order[i] != order[j],
    ensures
        !(order[k] == 'A' || order[k] == 'B' || order[k] == 'C') ==> order_fault(order) == Some(
            Fault::OrderLetter(order[k] as u8),
        ),
        (order[k] == 'A' || order[k] == 'B' || order[k] == 'C') && order.take(k).contains(order[k])
            ==> order_fault(order) == Some(Fault::OrderRepeat(order[k] as u8)),
{
    let b = vstd::utf8::encode_utf8(order);
    vstd::utf8::is_ascii_chars_encode_utf8(order);
    assert(b.len() == order.len());
    assert forall|i: int| 0 <= i < b.len() implies b[i] == order[i] as u8 by {}
    let head = b.take(k);
    assert forall|i: int| 0 <= i < head.len() implies is_slot_byte(#[trigger] head[i]) by {
        assert(order[i] == 'A' || order[i] == 'B' || order[i] == 'C');
    }
    assert(head.no_duplicates());
    lemma_no_fault(head);
    let next = b.take(k + 1);
    assert(next.drop_last() =~= head);
    assert(next.last() == order[k] as u8);
    if order.take(k).contains(order[k]) {
        let j = choose|j: int| 0 <= j < k && order.take(k)[j] == order[k];
        assert(head[j] == order[k] as u8);
    }
    if first_order_fault(next) is Some {
        lemma_first_fault_stays(b, k + 1);
    }
}

proof fn lemma_first_fault_stays(b: Seq<u8>, k: int)
    requires
        0 <= k <= b.len(),
        first_order_fault(b.take(k)) is Some,
    ensures
        first_order_fault(b) == first_order_fault(b.take(k)),
    decreases b.len() - k,
{
    if k < b.len() {
        assert(b.take(k + 1).drop_last() =~= b.take(k));
        lemma_first_fault_stays(b, k + 1);
    } else {
        assert(b.take(k) =~= b);
    }
}

/// The default configuration, value by value.
pub proof fn the_default_values()
    ensures
        default_config().weapon_slot1 == "2"@,
        default_config().weapon_slot2 == "3"@,
        default_config().weapon_slot3 == "4"@,
        default_config().execution_hotkey == "LALT"@,
        default_config().router_hotkey == "RALT"@,
        default_config().execution_order == "ABC"@,
        default_config().execution_mode == ExecutionMode::Toggle,
        !default_config().random_execution,
        default_config().weapon_switch_interval_ms == 100,
        default_config().weapon_switch_interval_offset_ms == 20,
        default_config().shoot_interval_ms == 50,
        default_config().shoot_interval_offset_ms == 10,
{
}

/// An execution order that is empty, or longer than three ASCII characters, is
/// refused for its length.
pub proof fn the_length_of_an_order_is_checked(order: Seq<char>)
    requires
        order.len() == 0 || (order.len() > 3 && vstd::utf8::is_ascii_chars(order)),
    ensures
        order_fault(order) == Some(Fault::OrderLength),
{
    if order.len() > 0 {
        vstd::utf8::is_ascii_chars_encode_utf8(order);
    } else {
        assert(vstd::utf8::is_ascii_chars(order));
        vstd::utf8::is_ascii_chars_encode_utf8(order);
    }
}

} // verus!
