//! The task model that the library's logic reads: identifiers, workflow
//! state kinds and materialized task snapshots.
use vstd::prelude::*;

use crate::text::{push_char, views};

verus! {

/// Task identifier (a 128-bit UUID).
#[derive(Clone, Copy, Debug, PartialEq, Eq, Structural, Hash)]
pub struct TaskId {
    /// The UUID as a 128-bit integer, most significant byte first.
    pub value: u128,
}

/// Event identifier (a 128-bit UUID).
#[derive(Clone, Copy, Debug, PartialEq, Eq, Structural, Hash)]
pub struct EventId {
    /// The UUID as a 128-bit integer, most significant byte first.
    pub value: u128,
}

/// The lowercase hexadecimal digit of `d`.
pub open spec fn hex_char(d: nat) -> char {
    if d < 10 {
        ((d + 48) as u8) as char
    } else {
        ((d + 87) as u8) as char
    }
}

/// The last `n` hexadecimal digits of `v`, most significant first.
pub open spec fn hex_digits(v: nat, n: nat) -> Seq<char>
    decreases n,
{
    if n == 0 {
        Seq::<char>::empty()
    } else {
        hex_digits(v / 16, (n - 1) as nat).push(hex_char(v % 16))
    }
}

/// The canonical text of a UUID: 32 lowercase hexadecimal digits in groups
/// of 8, 4, 4, 4 and 12 separated by hyphens.
pub open spec fn uuid_text(v: u128) -> Seq<char> {
    let d = hex_digits(v as nat, 32);
    d.subrange(0, 8) + seq!['-'] + d.subrange(8, 12) + seq!['-'] + d.subrange(12, 16) + seq!['-']
        + d.subrange(16, 20) + seq!['-'] + d.subrange(20, 32)
}

/// The canonical text of a UUID.
pub fn uuid_string(v: u128) -> (r: String)
    ensures
        r@ == uuid_text(v),
{
    let mut digits: Vec<char> = Vec::new();
    let mut rest: u128 = v;
    let mut k: usize = 0;
    while k < 32
        invariant
            k <= 32,
            digits@.len() == k,
            hex_digits(v as nat, 32) == hex_digits(rest as nat, (32 - k) as nat) + digits@,
        decreases 32 - k,
    {
        let d = (rest % 16) as u8;
        let c = if d < 10 {
            (d + 48) as char
        } else {
            (d + 87) as char
        };
        assert(c == hex_char((rest % 16) as nat));
        let ghost old_digits = digits@;
        let ghost old_rest = rest;
        digits.insert(0, c);
        rest = rest / 16;
        assert(hex_digits(old_rest as nat, (32 - k) as nat) == hex_digits(rest as nat, (32 - k - 1) as nat).push(c));
        assert(digits@ =~= seq![c] + old_digits);
        assert(hex_digits(rest as nat, (32 - k - 1) as nat).push(c) + old_digits =~= hex_digits(rest as nat, (32 - k - 1) as nat) + digits@);
        k += 1;
    }
    assert(hex_digits(rest as nat, 0) =~= Seq::<char>::empty());
    assert(digits@ =~= hex_digits(v as nat, 32));
    let mut out = String::new();
    push_range(&mut out, &digits, 0, 8);
    push_char(&mut out, '-');
    push_range(&mut out, &digits, 8, 12);
    push_char(&mut out, '-');
    push_range(&mut out, &digits, 12, 16);
    push_char(&mut out, '-');
    push_range(&mut out, &digits, 16, 20);
    push_char(&mut out, '-');
    push_range(&mut out, &digits, 20, 32);
    let ghost d = digits@;
    assert(out@ =~= d.subrange(0, 8) + seq!['-'] + d.subrange(8, 12) + seq!['-'] + d.subrange(12, 16)
        + seq!['-'] + d.subrange(16, 20) + seq!['-'] + d.subrange(20, 32));
    out
}


/// The value of a hexadecimal digit (either case); -1 for any other
/// character.
pub open spec fn hex_value_of(c: char) -> int {
    if '0' <= c && c <= '9' {
        c as int - 48
    } else if 'a' <= c && c <= 'f' {
        c as int - 87
    } else if 'A' <= c && c <= 'F' {
        c as int - 55
    } else {
        -1
    }
}

/// Every character is a hexadecimal digit.
pub open spec fn all_hex(s: Seq<char>) -> bool {
    forall|i: int| 0 <= i < s.len() ==> hex_value_of(#[trigger] s[i]) >= 0
}

/// The number that hexadecimal digits write, most significant first.
pub open spec fn hex_value(s: Seq<char>) -> nat
    decreases s.len(),
{
    if s.len() == 0 {
        0
    } else {
        (hex_value(s.drop_last()) * 16 + hex_value_of(s.last())) as nat
    }
}

/// Sixteen to the power `n`.
pub open spec fn pow16(n: nat) -> nat
    decreases n,
{
    if n == 0 {
        1
    } else {
        16 * pow16((n - 1) as nat)
    }
}

/// The 32 digits of a UUID text: the hyphenated form with hyphens after
/// the 8th, 12th, 16th and 20th digit, or 32 digits without hyphens.
pub open spec fn uuid_digits(s: Seq<char>) -> Option<Seq<char>> {
    if s.len() == 36 && s[8] == '-' && s[13] == '-' && s[18] == '-' && s[23] == '-' {
        Some(
            s.subrange(0, 8) + s.subrange(9, 13) + s.subrange(14, 18) + s.subrange(19, 23)
                + s.subrange(24, 36),
        )
    } else if s.len() == 32 {
        Some(s)
    } else {
        None
    }
}

/// The UUID a text writes, if it is one.
pub open spec fn parse_uuid(s: Seq<char>) -> Option<u128> {
    match uuid_digits(s) {
        Some(d) => if all_hex(d) {
            Some(hex_value(d) as u128)
        } else {
            None
        },
        None => None,
    }
}

/// Digits are worth less than sixteen to the power of their count.
pub proof fn lemma_hex_value_bound(s: Seq<char>)
    requires
        all_hex(s),
    ensures
        hex_value(s) < pow16(s.len()),
    decreases s.len(),
{
    if s.len() > 0 {
        let t = s.drop_last();
        assert(all_hex(t)) by {
            assert forall|i: int| 0 <= i < t.len() implies hex_value_of(#[trigger] t[i]) >= 0 by {
                assert(t[i] == s[i]);
            }
        }
        lemma_hex_value_bound(t);
        assert(hex_value_of(s[s.len() - 1]) >= 0);
        let a = hex_value(t);
        let d = hex_value_of(s.last());
        let p = pow16(t.len());
        assert(0 <= d < 16);
        assert(a * 16 + d < 16 * p) by (nonlinear_arith)
            requires
                a < p,
                0 <= d < 16,
        ;
    }
}

/// The digits of a number read back to the number, modulo the digits' reach.
pub proof fn lemma_hex_digits_value(v: nat, n: nat)
    ensures
        all_hex(hex_digits(v, n)),
        hex_digits(v, n).len() == n,
        hex_value(hex_digits(v, n)) == v % pow16(n),
    decreases n,
{
    if n > 0 {
        lemma_hex_digits_value(v / 16, (n - 1) as nat);
        let t = hex_digits(v / 16, (n - 1) as nat);
        let s = hex_digits(v, n);
        assert(s == t.push(hex_char(v % 16)));
        assert(s.drop_last() =~= t);
        let r = v % 16;
        assert(hex_value_of(hex_char(r)) == r);
        assert forall|i: int| 0 <= i < s.len() implies hex_value_of(#[trigger] s[i]) >= 0 by {
            if i < t.len() {
                assert(s[i] == t[i]);
            }
        }
        let q = v / 16;
        let m = pow16((n - 1) as nat);
        assert(m > 0) by {
            lemma_pow16_positive((n - 1) as nat);
        }
        assert((q % m) * 16 + r == v % (16 * m)) by (nonlinear_arith)
            requires
                q == v / 16,
                r == v % 16,
                m > 0,
        {
            assert(v == 16 * q + r);
            assert(q == m * (q / m) + q % m);
            assert(v == (16 * m) * (q / m) + ((q % m) * 16 + r));
            assert(0 <= (q % m) * 16 + r < 16 * m);
        }
    } else {
        assert(v % 1 == 0);
    }
}

proof fn lemma_pow16_positive(n: nat)
    ensures
        pow16(n) > 0,
    decreases n,
{
    if n > 0 {
        lemma_pow16_positive((n - 1) as nat);
    }
}

/// The canonical text of a UUID has 36 characters.
pub proof fn lemma_uuid_text_len(v: u128)
    ensures
        uuid_text(v).len() == 36,
{
    lemma_hex_digits_value(v as nat, 32);
}

/// The canonical text of a UUID reads back to it: writing an identifier
/// and parsing the text gives the identifier back.
pub proof fn lemma_uuid_text_parses(v: u128)
    ensures
        parse_uuid(uuid_text(v)) == Some(v),
{
    let d = hex_digits(v as nat, 32);
    lemma_hex_digits_value(v as nat, 32);
    let s = uuid_text(v);
    assert(s.len() == 36);
    assert(s[8] == '-' && s[13] == '-' && s[18] == '-' && s[23] == '-');
    assert(uuid_digits(s) == Some(d)) by {
        assert(s.subrange(0, 8) + s.subrange(9, 13) + s.subrange(14, 18) + s.subrange(19, 23)
            + s.subrange(24, 36) =~= d);
    }
    lemma_pow16_32();
}

/// Sixteen to the 32nd is the number of 128-bit values.
proof fn lemma_pow16_32()
    ensures
        pow16(32) == 0x1_0000_0000_0000_0000_0000_0000_0000_0000,
{
    reveal_with_fuel(pow16, 33);
}

proof fn lemma_pow16_mono(a: nat, b: nat)
    requires
        a <= b,
    ensures
        pow16(a) <= pow16(b),
    decreases b - a,
{
    if a < b {
        lemma_pow16_mono(a, (b - 1) as nat);
        lemma_pow16_positive((b - 1) as nat);
    }
}

/// The value of a hexadecimal digit.
fn hex_digit(c: char) -> (r: Option<u8>)
    ensures
        r is None <==> hex_value_of(c) < 0,
        r matches Some(d) ==> d as int == hex_value_of(c),
{
    if c >= '0' && c <= '9' {
        Some(((c as u32) - 48) as u8)
    } else if c >= 'a' && c <= 'f' {
        Some(((c as u32) - 87) as u8)
    } else if c >= 'A' && c <= 'F' {
        Some(((c as u32) - 55) as u8)
    } else {
        None
    }
}

/// Appends `chars[from..to]` to a list of characters.
fn push_char_range(out: &mut Vec<char>, chars: &Vec<char>, from: usize, to: usize)
    requires
        from <= to <= chars@.len(),
    ensures
        final(out)@ == old(out)@ + chars@.subrange(from as int, to as int),
{
    let ghost start = out@;
    let mut i = from;
    while i < to
        invariant
            from <= i <= to <= chars@.len(),
            out@ == start + chars@.subrange(from as int, i as int),
        decreases to - i,
    {
        out.push(chars[i]);
        assert(chars@.subrange(from as int, i + 1) =~= chars@.subrange(from as int, i as int).push(
            chars@[i as int],
        ));
        i += 1;
    }
}

/// The UUID a text writes: 32 hexadecimal digits of either case, in the
/// hyphenated form or without hyphens.
pub fn parse_uuid_text(text: &str) -> (r: Option<u128>)
    ensures
        r == parse_uuid(text@),
{
    let chars = crate::text::chars_of(text);
    let mut digits: Vec<char> = Vec::new();
    if chars.len() == 36 && chars[8] == '-' && chars[13] == '-' && chars[18] == '-' && chars[23]
        == '-' {
        push_char_range(&mut digits, &chars, 0, 8);
        push_char_range(&mut digits, &chars, 9, 13);
        push_char_range(&mut digits, &chars, 14, 18);
        push_char_range(&mut digits, &chars, 19, 23);
        push_char_range(&mut digits, &chars, 24, 36);
        assert(digits@ =~= chars@.subrange(0, 8) + chars@.subrange(9, 13) + chars@.subrange(14, 18)
            + chars@.subrange(19, 23) + chars@.subrange(24, 36));
    } else if chars.len() == 32 {
        push_char_range(&mut digits, &chars, 0, 32);
        assert(digits@ =~= chars@);
    } else {
        return None;
    }
    let ghost d = digits@;
    assert(uuid_digits(text@) == Some(d));
    let mut value: u128 = 0;
    let mut k: usize = 0;
    while k < 32
        invariant
            d == digits@,
            d.len() == 32,
            uuid_digits(text@) == Some(d),
            k <= 32,
            all_hex(d.take(k as int)),
            value as nat == hex_value(d.take(k as int)),
        decreases 32 - k,
    {
        let t = Ghost(d.take(k + 1));
        assert(t@.drop_last() =~= d.take(k as int));
        assert(t@.last() == d[k as int]);
        match hex_digit(digits[k]) {
            None => {
                assert(!all_hex(d)) by {
                    assert(hex_value_of(d[k as int]) < 0);
                }
                return None;
            },
            Some(dv) => {
                proof {
                    assert(all_hex(t@)) by {
                        assert forall|i: int| 0 <= i < t@.len() implies hex_value_of(#[trigger] t@[i]) >= 0 by {
                            if i < k {
                                assert(t@[i] == d.take(k as int)[i]);
                            }
                        }
                    }
                    lemma_hex_value_bound(t@);
                    lemma_pow16_mono((k + 1) as nat, 32);
                    lemma_pow16_32();
                }
                value = value * 16 + dv as u128;
            },
        }
        k = k + 1;
    }
    assert(d.take(32) =~= d);
    Some(value)
}

/// Appends `chars[from..to]` to a string.
fn push_range(out: &mut String, chars: &Vec<char>, from: usize, to: usize)
    requires
        from <= to <= chars.len(),
    ensures
        final(out)@ == old(out)@ + chars@.subrange(from as int, to as int),
{
    let ghost start = out@;
    let mut i = from;
    while i < to
        invariant
            from <= i <= to <= chars.len(),
            out@ == start + chars@.subrange(from as int, i as int),
        decreases to - i,
    {
        push_char(out, chars[i]);
        assert(chars@.subrange(from as int, i + 1) =~= chars@.subrange(from as int, i as int).push(chars@[i as int]));
        i += 1;
    }
}

impl TaskId {
    /// The identifier a text writes, if it is a UUID.
    pub fn parse(text: &str) -> (r: Option<TaskId>)
        ensures
            r is Some <==> parse_uuid(text@) is Some,
            r matches Some(id) ==> parse_uuid(text@) == Some(id.value),
    {
        match parse_uuid_text(text) {
            Some(value) => Some(TaskId { value }),
            None => None,
        }
    }

    /// The canonical text of the identifier.
    pub fn to_text(&self) -> (r: String)
        ensures
            r@ == uuid_text(self.value),
    {
        uuid_string(self.value)
    }
}

impl EventId {
    /// The identifier a text writes, if it is a UUID.
    pub fn parse(text: &str) -> (r: Option<EventId>)
        ensures
            r is Some <==> parse_uuid(text@) is Some,
            r matches Some(id) ==> parse_uuid(text@) == Some(id.value),
    {
        match parse_uuid_text(text) {
            Some(value) => Some(EventId { value }),
            None => None,
        }
    }

    /// The canonical text of the identifier.
    pub fn to_text(&self) -> (r: String)
        ensures
            r@ == uuid_text(self.value),
    {
        uuid_string(self.value)
    }
}

/// Classification of workflow states.
#[derive(Clone, Copy, Debug, PartialEq, Eq, Structural)]
pub enum StateKind {
    Todo,
    InProgress,
    Blocked,
    Done,
    Backlog,
}

/// The name of a state kind.
pub open spec fn state_kind_name(kind: StateKind) -> Seq<char> {
    match kind {
        StateKind::Todo => "todo"@,
        StateKind::InProgress => "in_progress"@,
        StateKind::Blocked => "blocked"@,
        StateKind::Done => "done"@,
        StateKind::Backlog => "backlog"@,
    }
}

impl StateKind {
    /// The name of the kind.
    pub fn as_str(&self) -> (r: &'static str)
        ensures
            r@ == state_kind_name(*self),
    {
        match self {
            StateKind::Todo => "todo",
            StateKind::InProgress => "in_progress",
            StateKind::Blocked => "blocked",
            StateKind::Done => "done",
            StateKind::Backlog => "backlog",
        }
    }
}

/// Materialized state of a task.
#[derive(Debug, Clone)]
pub struct TaskSnapshot {
    /// Task identifier.
    pub id: TaskId,
    /// Title.
    pub title: String,
    /// Workflow state, if any.
    pub state: Option<String>,
    /// Kind of the workflow state, if known.
    pub state_kind: Option<StateKind>,
    /// Labels (a set, in ascending order).
    pub labels: Vec<String>,
    /// Assignees (a set, in ascending order).
    pub assignees: Vec<String>,
    /// Markdown description; empty when there is none.
    pub description: String,
    /// Parent tasks (a set, in ascending order).
    pub parents: Vec<TaskId>,
}

/// The view of an optional string.
pub open spec fn opt_view(o: Option<String>) -> Option<Seq<char>> {
    match o {
        Some(s) => Some(s@),
        None => None,
    }
}

impl TaskSnapshot {
    /// The label values.
    pub open spec fn label_views(self) -> Seq<Seq<char>> {
        views(self.labels@)
    }

    /// The assignee values.
    pub open spec fn assignee_views(self) -> Seq<Seq<char>> {
        views(self.assignees@)
    }
}

} // verus!
