//! Task filters as the filter editor reads and writes them, and their
//! one-line summary.
use vstd::prelude::*;

use crate::editor::{
    kind_by_name, malformed_line_error, parse_list_chars, parse_state_kind_name, parsed_list,
    unknown_field_error,
};
use crate::event_log::{rfc3339_text, EventKindView};
use crate::sets::{sort_set, to_sorted_set};
use crate::task::{parse_uuid, state_kind_name, uuid_text, StateKind, TaskId};
use crate::text::{
    chars_eq, chars_of, cviews, find_char, find_char_index, join, lines, lines_chars, owned,
    slice_chars, string_from_chars, strings_from_chars, trim, trim_chars, views,
};

verus! {

/// Included and excluded workflow state kinds.
#[derive(Debug, Clone)]
pub struct StateKindFilter {
    /// Kinds to keep (a set, in kind order).
    pub included: Vec<StateKind>,
    /// Kinds to leave out (a set, in kind order).
    pub excluded: Vec<StateKind>,
}

/// A time range on the last update, in nanoseconds since the Unix epoch.
#[derive(Debug, Clone, Copy)]
pub struct UpdatedFilter {
    pub since: Option<i128>,
    pub until: Option<i128>,
}

/// The conditions that select tasks.
#[derive(Debug, Clone)]
pub struct TaskFilter {
    /// Workflow states (a sorted set).
    pub states: Vec<String>,
    /// Workflow state kinds.
    pub state_kinds: StateKindFilter,
    /// Labels (a sorted set).
    pub labels: Vec<String>,
    /// Assignees (a sorted set).
    pub assignees: Vec<String>,
    /// Parent tasks (a set, by ascending identifier).
    pub parents: Vec<TaskId>,
    /// Child tasks (a set, by ascending identifier).
    pub children: Vec<TaskId>,
    /// Free text.
    pub text: Option<String>,
    /// Update time range.
    pub updated: Option<UpdatedFilter>,
}

/// `k` when `ks` has it.
pub open spec fn kind_if(ks: Seq<StateKind>, k: StateKind) -> Seq<StateKind> {
    if ks.contains(k) {
        seq![k]
    } else {
        Seq::<StateKind>::empty()
    }
}

/// The distinct kinds among `ks`, in kind order.
pub open spec fn kind_set(ks: Seq<StateKind>) -> Seq<StateKind> {
    kind_if(ks, StateKind::Todo) + kind_if(ks, StateKind::InProgress) + kind_if(ks, StateKind::Blocked)
        + kind_if(ks, StateKind::Done) + kind_if(ks, StateKind::Backlog)
}

/// Identifiers ascend strictly.
pub open spec fn ascending_ids(ids: Seq<TaskId>) -> bool {
    forall|i: int, j: int| 0 <= i < j < ids.len() ==> (#[trigger] ids[i]).value < (#[trigger] ids[j]).value
}

/// The identifiers written by each token, or the first token that writes
/// none.
pub open spec fn parsed_ids(tokens: Seq<Seq<char>>) -> Result<Seq<u128>, Seq<char>>
    decreases tokens.len(),
{
    if tokens.len() == 0 {
        Ok(Seq::<u128>::empty())
    } else {
        match parsed_ids(tokens.drop_last()) {
            Err(t) => Err(t),
            Ok(ids) => match parse_uuid(tokens.last()) {
                Some(v) => Ok(ids.push(v)),
                None => Err(tokens.last()),
            },
        }
    }
}

/// What a filter editor session has read so far.
pub struct FilterFields {
    pub states: Seq<Seq<char>>,
    pub labels: Seq<Seq<char>>,
    pub assignees: Seq<Seq<char>>,
    pub parents: Seq<u128>,
    pub children: Seq<u128>,
    pub text: Option<Seq<char>>,
    pub since: Option<i128>,
    pub until: Option<i128>,
    pub state_kinds: Option<Seq<char>>,
}

/// Nothing read yet.
pub open spec fn no_filter_fields() -> FilterFields {
    FilterFields {
        states: Seq::empty(),
        labels: Seq::empty(),
        assignees: Seq::empty(),
        parents: Seq::empty(),
        children: Seq::empty(),
        text: None,
        since: None,
        until: None,
        state_kinds: None,
    }
}

/// The instant an RFC 3339 text writes, as the `time` crate reads it, in
/// nanoseconds since the Unix epoch, or the crate's description of why it
/// cannot read it.
pub uninterp spec fn rfc3339_parsed(text: Seq<char>) -> Result<i128, Seq<char>>;

/// The error for an identifier that cannot be read.
pub open spec fn bad_id_error(token: Seq<char>) -> Seq<char> {
    "TaskId の形式が正しくありません: "@ + token
}

/// The error for a time that cannot be read.
pub open spec fn bad_time_error(value: Seq<char>, cause: Seq<char>) -> Seq<char> {
    "時刻の形式が正しくありません ("@ + value + "): "@ + cause
}

/// An optional time: none for an empty value.
pub open spec fn optional_time(value: Seq<char>) -> Result<Option<i128>, Seq<char>> {
    if value.len() == 0 {
        Ok(None)
    } else {
        match rfc3339_parsed(value) {
            Ok(ts) => Ok(Some(ts)),
            Err(e) => Err(bad_time_error(value, e)),
        }
    }
}

/// Reading one more line of a filter editor session: blank lines and
/// comment lines are skipped; every other line is `key: value`, the last
/// value of a key wins.
pub open spec fn filter_step(st: FilterFields, line: Seq<char>) -> Result<FilterFields, Seq<char>> {
    let trimmed = trim(line);
    if trimmed.len() == 0 || trimmed[0] == '#' {
        Ok(st)
    } else {
        match find_char(trimmed, ':') {
            None => Err(malformed_line_error(trimmed)),
            Some(i) => filter_entry(st, trim(trimmed.take(i)), trim(trimmed.skip(i + 1))),
        }
    }
}

/// Reading the value of a key of the filter form.
pub open spec fn filter_entry(st: FilterFields, key: Seq<char>, value: Seq<char>) -> Result<FilterFields, Seq<char>> {
                if key == "states"@ {
                    Ok(FilterFields { states: parsed_list(value), ..st })
                } else if key == "labels"@ {
                    Ok(FilterFields { labels: parsed_list(value), ..st })
                } else if key == "assignees"@ {
                    Ok(FilterFields { assignees: parsed_list(value), ..st })
                } else if key == "parents"@ {
                    match parsed_ids(parsed_list(value)) {
                        Ok(ids) => Ok(FilterFields { parents: ids, ..st }),
                        Err(t) => Err(bad_id_error(t)),
                    }
                } else if key == "children"@ {
                    match parsed_ids(parsed_list(value)) {
                        Ok(ids) => Ok(FilterFields { children: ids, ..st }),
                        Err(t) => Err(bad_id_error(t)),
                    }
                } else if key == "text"@ {
                    Ok(
                        FilterFields {
                            text: if value.len() == 0 {
                                None
                            } else {
                                Some(value)
                            },
                            ..st
                        },
                    )
                } else if key == "updated_since"@ {
                    match optional_time(value) {
                        Ok(t) => Ok(FilterFields { since: t, ..st }),
                        Err(e) => Err(e),
                    }
                } else if key == "updated_until"@ {
                    match optional_time(value) {
                        Ok(t) => Ok(FilterFields { until: t, ..st }),
                        Err(e) => Err(e),
                    }
                } else if key == "state_kinds"@ {
                    Ok(FilterFields { state_kinds: Some(value), ..st })
                } else {
                    Err(unknown_field_error(key))
                }
}

/// The fields read from the given lines, or the first error.
pub open spec fn filter_fields_of(ls: Seq<Seq<char>>) -> Result<FilterFields, Seq<char>>
    decreases ls.len(),
{
    if ls.len() == 0 {
        Ok(no_filter_fields())
    } else {
        match filter_fields_of(ls.drop_last()) {
            Err(e) => Err(e),
            Ok(st) => filter_step(st, ls.last()),
        }
    }
}

/// The kinds named by the tokens without `!` and by those with it, or the
/// first name that is no kind.
pub open spec fn kind_tokens(tokens: Seq<Seq<char>>) -> Result<(Seq<StateKind>, Seq<StateKind>), Seq<char>>
    decreases tokens.len(),
{
    if tokens.len() == 0 {
        Ok((Seq::<StateKind>::empty(), Seq::<StateKind>::empty()))
    } else {
        match kind_tokens(tokens.drop_last()) {
            Err(e) => Err(e),
            Ok((inc, exc)) => {
                let t = tokens.last();
                let negated = t.len() > 0 && t[0] == '!';
                let name = if negated {
                    t.drop_first()
                } else {
                    t
                };
                match kind_by_name(name) {
                    None => Err(name),
                    Some(k) => if negated {
                        Ok((inc, exc.push(k)))
                    } else {
                        Ok((inc.push(k), exc))
                    },
                }
            },
        }
    }
}

/// The view of a state kind filter.
pub struct KindFilterView {
    pub included: Seq<StateKind>,
    pub excluded: Seq<StateKind>,
}

/// The state kind filter a `state_kinds` value writes, or the error for the
/// first name that is no kind.
pub open spec fn kind_filter_of(input: Seq<char>) -> Result<KindFilterView, Seq<char>> {
    if trim(input).len() == 0 {
        Ok(KindFilterView { included: Seq::empty(), excluded: Seq::empty() })
    } else {
        match kind_tokens(parsed_list(input)) {
            Err(name) => Err("state_kind の指定が不正です: "@ + name),
            Ok((inc, exc)) => Ok(KindFilterView { included: kind_set(inc), excluded: kind_set(exc) }),
        }
    }
}

/// The identifiers of a list of tasks.
pub open spec fn id_values(ids: Seq<TaskId>) -> Seq<u128> {
    ids.map_values(|t: TaskId| t.value)
}

/// The view of a [`TaskFilter`].
pub struct TaskFilterView {
    pub states: Seq<Seq<char>>,
    pub include_kinds: Seq<StateKind>,
    pub exclude_kinds: Seq<StateKind>,
    pub labels: Seq<Seq<char>>,
    pub assignees: Seq<Seq<char>>,
    pub parents: Seq<u128>,
    pub children: Seq<u128>,
    pub text: Option<Seq<char>>,
    pub updated: Option<(Option<i128>, Option<i128>)>,
}

impl View for TaskFilter {
    type V = TaskFilterView;

    open spec fn view(&self) -> TaskFilterView {
        TaskFilterView {
            states: views(self.states@),
            include_kinds: self.state_kinds.included@,
            exclude_kinds: self.state_kinds.excluded@,
            labels: views(self.labels@),
            assignees: views(self.assignees@),
            parents: id_values(self.parents@),
            children: id_values(self.children@),
            text: crate::task::opt_view(self.text),
            updated: match self.updated {
                Some(u) => Some((u.since, u.until)),
                None => None,
            },
        }
    }
}

/// `r` holds the values of `s`, once each, ascending.
pub open spec fn is_id_set(r: Seq<u128>, s: Seq<u128>) -> bool {
    &&& forall|i: int, j: int| 0 <= i < j < r.len() ==> r[i] < r[j]
    &&& forall|x: u128| r.contains(x) <==> s.contains(x)
}

/// What a filter editor session produced: the filter, or the first error.
pub open spec fn filter_result_ok(raw: Seq<char>, f: TaskFilterView) -> bool {
    match filter_fields_of(lines(raw)) {
        Err(_) => false,
        Ok(st) => match kind_filter_of(
            match st.state_kinds {
                Some(v) => v,
                None => Seq::<char>::empty(),
            },
        ) {
            Err(_) => false,
            Ok(kinds) => {
                &&& f.states == sort_set(st.states)
                &&& f.labels == sort_set(st.labels)
                &&& f.assignees == sort_set(st.assignees)
                &&& is_id_set(f.parents, st.parents)
                &&& is_id_set(f.children, st.children)
                &&& f.text == st.text
                &&& f.include_kinds == kinds.included
                &&& f.exclude_kinds == kinds.excluded
                &&& f.updated == if st.since is None && st.until is None {
                    None
                } else {
                    Some((st.since, st.until))
                }
            },
        },
    }
}

/// The error of a filter editor session, if it has one.
pub open spec fn filter_error(raw: Seq<char>) -> Option<Seq<char>> {
    match filter_fields_of(lines(raw)) {
        Err(e) => Some(e),
        Ok(st) => match kind_filter_of(
            match st.state_kinds {
                Some(v) => v,
                None => Seq::<char>::empty(),
            },
        ) {
            Err(e) => Some(e),
            Ok(_) => None,
        },
    }
}


/// Reads an RFC 3339 time with the `time` crate
/// (`OffsetDateTime::parse(text, &Rfc3339)`, then `unix_timestamp_nanos`).
/// The contract names the result; which texts the crate accepts, and how
/// it words a refusal, is left to the crate.
#[verifier::external_body]
pub(crate) fn parse_rfc3339(text: &str) -> (r: Result<i128, String>)
    ensures
        match rfc3339_parsed(text@) {
            Ok(t) => r matches Ok(x) && x == t,
            Err(e) => r matches Err(m) && m@ == e,
        },
{
    match time::OffsetDateTime::parse(text, &time::format_description::well_known::Rfc3339) {
        Ok(t) => Ok(t.unix_timestamp_nanos()),
        Err(e) => Err(e.to_string()),
    }
}

/// Whether `k` is among `ks`.
fn has_kind(ks: &Vec<StateKind>, k: StateKind) -> (r: bool)
    ensures
        r == ks@.contains(k),
{
    let mut i: usize = 0;
    while i < ks.len()
        invariant
            i <= ks@.len(),
            forall|j: int| 0 <= j < i ==> ks@[j] != k,
        decreases ks@.len() - i,
    {
        if ks[i] == k {
            return true;
        }
        i = i + 1;
    }
    false
}

/// The distinct kinds among `ks`, in kind order.
pub fn kinds_in_order(ks: &Vec<StateKind>) -> (r: Vec<StateKind>)
    ensures
        r@ == kind_set(ks@),
{
    let mut out: Vec<StateKind> = Vec::new();
    let order = vec![StateKind::Todo, StateKind::InProgress, StateKind::Blocked, StateKind::Done, StateKind::Backlog];
    let ghost parts = seq![
        kind_if(ks@, StateKind::Todo),
        kind_if(ks@, StateKind::InProgress),
        kind_if(ks@, StateKind::Blocked),
        kind_if(ks@, StateKind::Done),
        kind_if(ks@, StateKind::Backlog),
    ];
    let mut i: usize = 0;
    while i < 5
        invariant
            i <= 5,
            order@ == seq![StateKind::Todo, StateKind::InProgress, StateKind::Blocked, StateKind::Done, StateKind::Backlog],
            parts == seq![
                kind_if(ks@, StateKind::Todo),
                kind_if(ks@, StateKind::InProgress),
                kind_if(ks@, StateKind::Blocked),
                kind_if(ks@, StateKind::Done),
                kind_if(ks@, StateKind::Backlog),
            ],
            forall|j: int| 0 <= j < 5 ==> #[trigger] parts[j] == kind_if(ks@, order@[j]),
            out@ == parts.take(i as int).fold_left(Seq::<StateKind>::empty(), |acc: Seq<StateKind>, p: Seq<StateKind>| acc + p),
        decreases 5 - i,
    {
        let k = order[i];
        let ghost before = out@;
        if has_kind(ks, k) {
            out.push(k);
        }
        proof {
            assert(parts.take(i + 1).drop_last() =~= parts.take(i as int));
            assert(out@ =~= before + parts[i as int]);
        }
        i = i + 1;
    }
    proof {
        assert(parts.take(5) =~= parts);
        reveal_with_fuel(Seq::fold_left, 6);
        assert(parts.take(5).fold_left(Seq::<StateKind>::empty(), |acc: Seq<StateKind>, p: Seq<StateKind>| acc + p) =~= kind_set(ks@));
    }
    out
}

/// The identifiers written by each token, or the first token that writes
/// none.
fn parse_id_tokens(tokens: &Vec<Vec<char>>) -> (r: Result<Vec<u128>, Vec<char>>)
    ensures
        match parsed_ids(cviews(tokens@)) {
            Ok(ids) => r matches Ok(v) && v@ == ids,
            Err(t) => r matches Err(x) && x@ == t,
        },
{
    let ghost tv = cviews(tokens@);
    let mut out: Vec<u128> = Vec::new();
    let mut i: usize = 0;
    while i < tokens.len()
        invariant
            i <= tokens@.len(),
            tv == cviews(tokens@),
            parsed_ids(tv.take(i as int)) == Ok::<Seq<u128>, Seq<char>>(out@),
        decreases tokens@.len() - i,
    {
        assert(tv.take(i + 1).drop_last() =~= tv.take(i as int));
        assert(tv.take(i + 1).last() == tokens@[i as int]@);
        let text = string_from_chars(&tokens[i]);
        match crate::task::parse_uuid_text(text.as_str()) {
            Some(v) => out.push(v),
            None => {
                proof {
                    assert(parsed_ids(tv.take(i + 1)) == Err::<Seq<u128>, Seq<char>>(tokens@[i as int]@));
                    lemma_parsed_ids_err_sticks(tv, i + 1, tv.len() as int);
                    assert(tv.take(tv.len() as int) =~= tv);
                }
                return Err(slice_chars(&tokens[i], 0, tokens[i].len()));
            },
        }
        i = i + 1;
    }
    assert(tv.take(tokens@.len() as int) =~= tv);
    Ok(out)
}

proof fn lemma_parsed_ids_err_sticks(ts: Seq<Seq<char>>, i: int, j: int)
    requires
        0 <= i <= j <= ts.len(),
        parsed_ids(ts.take(i)) is Err,
    ensures
        parsed_ids(ts.take(j)) == parsed_ids(ts.take(i)),
    decreases j - i,
{
    if j > i {
        lemma_parsed_ids_err_sticks(ts, i, j - 1);
        assert(ts.take(j).drop_last() =~= ts.take(j - 1));
    }
}


proof fn lemma_insert_contains(before: Seq<TaskId>, p: int, v: u128)
    requires
        0 <= p <= before.len(),
    ensures
        forall|x: u128| id_values(before.insert(p, TaskId { value: v })).contains(x) <==> (id_values(
            before,
        ).contains(x) || x == v),
{
    let after = before.insert(p, TaskId { value: v });
    assert forall|x: u128| id_values(after).contains(x) <==> (id_values(before).contains(x) || x == v) by {
        if id_values(after).contains(x) {
            let k = choose|k: int| 0 <= k < id_values(after).len() && #[trigger] id_values(after)[k] == x;
            if k < p {
                assert(id_values(before)[k] == x);
            } else if k > p {
                assert(id_values(before)[k - 1] == x);
            }
        }
        if id_values(before).contains(x) {
            let k = choose|k: int| 0 <= k < id_values(before).len() && #[trigger] id_values(before)[k] == x;
            if k < p {
                assert(id_values(after)[k] == x);
            } else {
                assert(id_values(after)[k + 1] == x);
            }
        }
        if x == v {
            assert(id_values(after)[p] == v);
        }
    }
}

/// Insert `v` into a strictly ascending list of identifiers.
#[verifier::spinoff_prover]
fn insert_id(set: &mut Vec<TaskId>, v: u128)
    requires
        forall|i: int, j: int| 0 <= i < j < old(set)@.len() ==> (#[trigger] old(set)@[i]).value
            < (#[trigger] old(set)@[j]).value,
    ensures
        forall|i: int, j: int| 0 <= i < j < final(set)@.len() ==> (#[trigger] final(set)@[i]).value
            < (#[trigger] final(set)@[j]).value,
        forall|x: u128| id_values(final(set)@).contains(x) <==> (id_values(old(set)@).contains(x) || x == v),
{
    let ghost before = set@;
    let mut p: usize = 0;
    while p < set.len()
        invariant
            p <= set@.len(),
            set@ == before,
            forall|i: int, j: int| 0 <= i < j < set@.len() ==> (#[trigger] set@[i]).value < (#[trigger] set@[j]).value,
            forall|k: int| 0 <= k < p ==> (#[trigger] set@[k]).value < v,
        ensures
            p <= set@.len(),
            set@ == before,
            forall|k: int| 0 <= k < p ==> (#[trigger] set@[k]).value < v,
            p < set@.len() ==> set@[p as int].value >= v,
        decreases set@.len() - p,
    {
        if set[p].value >= v {
            break;
        }
        p = p + 1;
    }
    if p < set.len() && set[p].value == v {
        proof {
            assert forall|x: u128| id_values(set@).contains(x) <==> (id_values(before).contains(x) || x == v) by {
                if x == v {
                    assert(id_values(set@)[p as int] == v);
                }
            }
        }
        return;
    }
    set.insert(p, TaskId { value: v });
    proof {
        assert(set@ == before.insert(p as int, TaskId { value: v }));
        assert forall|i: int, j: int| 0 <= i < j < set@.len() implies (#[trigger] set@[i]).value
            < (#[trigger] set@[j]).value by {
            if j < p {
                assert(set@[i] == before[i] && set@[j] == before[j]);
            } else if j == p {
                assert(set@[i] == before[i]);
            } else if i == p {
                assert(set@[j] == before[j - 1]);
                if j - 1 > p {
                    assert(before[p as int].value < before[j - 1].value);
                }
            } else if i < p {
                assert(set@[i] == before[i] && set@[j] == before[j - 1]);
            } else {
                assert(set@[i] == before[i - 1] && set@[j] == before[j - 1]);
            }
        }
        lemma_insert_contains(before, p as int, v);
        assert forall|x: u128| #[trigger] id_values(set@).contains(x) <==> (id_values(before).contains(x)
            || x == v) by {
            assert(id_values(set@) == id_values(before.insert(p as int, TaskId { value: v })));
        }
    }
}

/// The identifiers of a list, once each, ascending.
pub(crate) fn to_id_set(values: &Vec<u128>) -> (r: Vec<TaskId>)
    ensures
        is_id_set(id_values(r@), values@),
{
    let mut out: Vec<TaskId> = Vec::new();
    let mut i: usize = 0;
    while i < values.len()
        invariant
            i <= values@.len(),
            forall|a: int, b: int| 0 <= a < b < out@.len() ==> (#[trigger] out@[a]).value < (#[trigger] out@[b]).value,
            forall|x: u128| id_values(out@).contains(x) <==> values@.take(i as int).contains(x),
        decreases values@.len() - i,
    {
        let ghost before = out@;
        insert_id(&mut out, values[i]);
        proof {
            assert forall|x: u128| values@.take(i + 1).contains(x) <==> (values@.take(i as int).contains(x)
                || x == values@[i as int]) by {
                if values@.take(i + 1).contains(x) {
                    let k = choose|k: int| 0 <= k < i + 1 && #[trigger] values@.take(i + 1)[k] == x;
                    if k < i {
                        assert(values@.take(i as int)[k] == x);
                    }
                }
                if values@.take(i as int).contains(x) {
                    let k = choose|k: int| 0 <= k < i && #[trigger] values@.take(i as int)[k] == x;
                    assert(values@.take(i + 1)[k] == x);
                }
                if x == values@[i as int] {
                    assert(values@.take(i + 1)[i as int] == x);
                }
            }
            assert forall|x: u128| id_values(out@).contains(x) <==> values@.take(i + 1).contains(x) by {
                assert(id_values(out@).contains(x) <==> (id_values(before).contains(x) || x == values@[i as int]));
                assert(id_values(before).contains(x) <==> values@.take(i as int).contains(x));
            }
        }
        i = i + 1;
    }
    assert(values@.take(values@.len() as int) =~= values@);
    proof {
        assert forall|a: int, b: int| 0 <= a < b < id_values(out@).len() implies id_values(out@)[a]
            < id_values(out@)[b] by {
            assert(out@[a].value < out@[b].value);
        }
    }
    out
}


/// Reads a `state_kinds` value: kinds to keep, and (with `!`) kinds to leave
/// out; an empty value selects no kind.
pub fn parse_state_kind_filter(input: &str) -> (r: Result<StateKindFilter, String>)
    ensures
        match kind_filter_of(input@) {
            Ok(v) => r matches Ok(f) && f.included@ == v.included && f.excluded@ == v.excluded,
            Err(e) => r matches Err(m) && m@ == e,
        },
{
    let chars = chars_of(input);
    if trim_chars(&chars).len() == 0 {
        return Ok(StateKindFilter { included: Vec::new(), excluded: Vec::new() });
    }
    let tokens = parse_list_chars(&chars);
    let ghost tv = cviews(tokens@);
    let mut inc: Vec<StateKind> = Vec::new();
    let mut exc: Vec<StateKind> = Vec::new();
    let mut i: usize = 0;
    while i < tokens.len()
        invariant
            i <= tokens@.len(),
            tv == cviews(tokens@),
            tv == parsed_list(input@),
            trim(input@).len() != 0,
            kind_tokens(tv.take(i as int)) == Ok::<(Seq<StateKind>, Seq<StateKind>), Seq<char>>(
                (inc@, exc@),
            ),
        decreases tokens@.len() - i,
    {
        assert(tv.take(i + 1).drop_last() =~= tv.take(i as int));
        assert(tv.take(i + 1).last() == tokens@[i as int]@);
        let t = &tokens[i];
        let negated = t.len() > 0 && t[0] == '!';
        let name = if negated {
            slice_chars(t, 1, t.len())
        } else {
            slice_chars(t, 0, t.len())
        };
        assert(negated ==> name@ =~= t@.drop_first());
        assert(!negated ==> name@ =~= t@);
        let name_text = string_from_chars(&name);
        match parse_state_kind_name(name_text.as_str()) {
            None => {
                proof {
                    assert(kind_tokens(tv.take(i + 1)) == Err::<(Seq<StateKind>, Seq<StateKind>), Seq<char>>(
                        name@,
                    ));
                    lemma_kind_tokens_err_sticks(tv, i + 1, tv.len() as int);
                    assert(tv.take(tv.len() as int) =~= tv);
                }
                let mut msg = owned("state_kind の指定が不正です: ");
                crate::text::push_str(&mut msg, name_text.as_str());
                assert(kind_tokens(parsed_list(input@)) == Err::<(Seq<StateKind>, Seq<StateKind>), Seq<char>>(
                    name@,
                ));
                assert(trim(input@).len() != 0);
                assert(msg@ == "state_kind の指定が不正です: "@ + name@);
                return Err(msg);
            },
            Some(k) => {
                if negated {
                    exc.push(k);
                } else {
                    inc.push(k);
                }
            },
        }
        i = i + 1;
    }
    assert(tv.take(tokens@.len() as int) =~= tv);
    Ok(StateKindFilter { included: kinds_in_order(&inc), excluded: kinds_in_order(&exc) })
}

proof fn lemma_kind_tokens_err_sticks(ts: Seq<Seq<char>>, i: int, j: int)
    requires
        0 <= i <= j <= ts.len(),
        kind_tokens(ts.take(i)) is Err,
    ensures
        kind_tokens(ts.take(j)) == kind_tokens(ts.take(i)),
    decreases j - i,
{
    if j > i {
        lemma_kind_tokens_err_sticks(ts, i, j - 1);
        assert(ts.take(j).drop_last() =~= ts.take(j - 1));
    }
}

/// Exec state of the filter form reader.
struct FilterReader {
    states: Vec<Vec<char>>,
    labels: Vec<Vec<char>>,
    assignees: Vec<Vec<char>>,
    parents: Vec<u128>,
    children: Vec<u128>,
    text: Option<Vec<char>>,
    since: Option<i128>,
    until: Option<i128>,
    state_kinds: Option<Vec<char>>,
}

spec fn opt_chars(o: Option<Vec<char>>) -> Option<Seq<char>> {
    match o {
        Some(v) => Some(v@),
        None => None,
    }
}

spec fn filter_reader_view(r: FilterReader) -> FilterFields {
    FilterFields {
        states: cviews(r.states@),
        labels: cviews(r.labels@),
        assignees: cviews(r.assignees@),
        parents: r.parents@,
        children: r.children@,
        text: opt_chars(r.text),
        since: r.since,
        until: r.until,
        state_kinds: opt_chars(r.state_kinds),
    }
}

/// Reads an optional time value.
fn read_optional_time(value: &Vec<char>) -> (r: Result<Option<i128>, Vec<char>>)
    ensures
        match optional_time(value@) {
            Ok(t) => r matches Ok(x) && x == t,
            Err(e) => r matches Err(m) && m@ == e,
        },
{
    if value.len() == 0 {
        return Ok(None);
    }
    let text = string_from_chars(value);
    match parse_rfc3339(text.as_str()) {
        Ok(t) => Ok(Some(t)),
        Err(e) => {
            let mut msg = owned("時刻の形式が正しくありません (");
            crate::text::push_str(&mut msg, text.as_str());
            crate::text::push_str(&mut msg, "): ");
            crate::text::push_str(&mut msg, e.as_str());
            Err(chars_of(msg.as_str()))
        },
    }
}

fn id_error(token: Vec<char>) -> (r: Vec<char>)
    ensures
        r@ == bad_id_error(token@),
{
    let mut msg = chars_of("TaskId の形式が正しくありません: ");
    let mut t = token;
    msg.append(&mut t);
    msg
}

fn read_filter_line(rd: &mut FilterReader, line: &Vec<char>) -> (r: Result<(), Vec<char>>)
    ensures
        match filter_step(filter_reader_view(*old(rd)), line@) {
            Ok(st) => r is Ok && filter_reader_view(*final(rd)) == st,
            Err(e) => r matches Err(x) && x@ == e,
        },
{
    let trimmed = trim_chars(line);
    if trimmed.len() == 0 || trimmed[0] == '#' {
        return Ok(());
    }
    let i = match find_char_index(&trimmed, ':') {
        Some(i) => i,
        None => {
            let mut msg = chars_of("フィールドの形式が正しくありません: ");
            let mut t = trimmed;
            msg.append(&mut t);
            return Err(msg);
        },
    };
    let key = trim_chars(&slice_chars(&trimmed, 0, i));
    let value = trim_chars(&slice_chars(&trimmed, i + 1, trimmed.len()));
    assert(trimmed@.subrange(0, i as int) =~= trimmed@.take(i as int));
    assert(trimmed@.subrange(i + 1, trimmed@.len() as int) =~= trimmed@.skip(i + 1));
    if chars_eq(&key, &chars_of("states")) {
        rd.states = parse_list_chars(&value);
        Ok(())
    } else if chars_eq(&key, &chars_of("labels")) {
        rd.labels = parse_list_chars(&value);
        Ok(())
    } else if chars_eq(&key, &chars_of("assignees")) {
        rd.assignees = parse_list_chars(&value);
        Ok(())
    } else if chars_eq(&key, &chars_of("parents")) {
        match parse_id_tokens(&parse_list_chars(&value)) {
            Ok(ids) => {
                rd.parents = ids;
                Ok(())
            },
            Err(t) => Err(id_error(t)),
        }
    } else if chars_eq(&key, &chars_of("children")) {
        match parse_id_tokens(&parse_list_chars(&value)) {
            Ok(ids) => {
                rd.children = ids;
                Ok(())
            },
            Err(t) => Err(id_error(t)),
        }
    } else if chars_eq(&key, &chars_of("text")) {
        rd.text = if value.len() == 0 {
            None
        } else {
            Some(value)
        };
        Ok(())
    } else if chars_eq(&key, &chars_of("updated_since")) {
        match read_optional_time(&value) {
            Ok(t) => {
                rd.since = t;
                Ok(())
            },
            Err(e) => Err(e),
        }
    } else if chars_eq(&key, &chars_of("updated_until")) {
        match read_optional_time(&value) {
            Ok(t) => {
                rd.until = t;
                Ok(())
            },
            Err(e) => Err(e),
        }
    } else if chars_eq(&key, &chars_of("state_kinds")) {
        rd.state_kinds = Some(value);
        Ok(())
    } else {
        let mut msg = chars_of("未知のフィールドです: ");
        let mut k = key;
        msg.append(&mut k);
        Err(msg)
    }
}

proof fn lemma_filter_err_sticks(ls: Seq<Seq<char>>, i: int, j: int)
    requires
        0 <= i <= j <= ls.len(),
        filter_fields_of(ls.take(i)) is Err,
    ensures
        filter_fields_of(ls.take(j)) == filter_fields_of(ls.take(i)),
    decreases j - i,
{
    if j > i {
        lemma_filter_err_sticks(ls, i, j - 1);
        assert(ls.take(j).drop_last() =~= ls.take(j - 1));
    }
}

/// Reads the filter form from the editor output.
pub fn parse_filter_editor_output(raw: &str) -> (r: Result<TaskFilter, String>)
    ensures
        match filter_error(raw@) {
            Some(e) => r matches Err(m) && m@ == e,
            None => r matches Ok(f) && filter_result_ok(raw@, f@),
        },
{
    let chars = chars_of(raw);
    let ls = lines_chars(&chars);
    let ghost lv = cviews(ls@);
    let mut rd = FilterReader {
        states: Vec::new(),
        labels: Vec::new(),
        assignees: Vec::new(),
        parents: Vec::new(),
        children: Vec::new(),
        text: None,
        since: None,
        until: None,
        state_kinds: None,
    };
    assert(cviews(rd.states@) =~= Seq::<Seq<char>>::empty());
    assert(cviews(rd.labels@) =~= Seq::<Seq<char>>::empty());
    assert(cviews(rd.assignees@) =~= Seq::<Seq<char>>::empty());
    assert(rd.parents@ =~= Seq::<u128>::empty());
    assert(rd.children@ =~= Seq::<u128>::empty());
    assert(filter_reader_view(rd) == no_filter_fields());
    assert(lv.take(0) =~= Seq::<Seq<char>>::empty());
    let mut i: usize = 0;
    while i < ls.len()
        invariant
            i <= ls@.len(),
            lv == cviews(ls@),
            lv == lines(raw@),
            filter_fields_of(lv.take(i as int)) == Ok::<FilterFields, Seq<char>>(filter_reader_view(rd)),
        decreases ls@.len() - i,
    {
        assert(lv.take(i + 1).drop_last() =~= lv.take(i as int));
        assert(lv.take(i + 1).last() == ls@[i as int]@);
        match read_filter_line(&mut rd, &ls[i]) {
            Ok(()) => {},
            Err(e) => {
                proof {
                    lemma_filter_err_sticks(lv, i + 1, lv.len() as int);
                    assert(lv.take(lv.len() as int) =~= lv);
                }
                return Err(string_from_chars(&e));
            },
        }
        i = i + 1;
    }
    assert(lv.take(ls@.len() as int) =~= lv);
    let kinds_text = match &rd.state_kinds {
        Some(v) => string_from_chars(v),
        None => String::new(),
    };
    let state_kinds = match parse_state_kind_filter(kinds_text.as_str()) {
        Ok(f) => f,
        Err(e) => return Err(e),
    };
    let updated = if rd.since.is_none() && rd.until.is_none() {
        None
    } else {
        Some(UpdatedFilter { since: rd.since, until: rd.until })
    };
    let states = to_sorted_set(&strings_from_chars(&rd.states));
    let labels = to_sorted_set(&strings_from_chars(&rd.labels));
    let assignees = to_sorted_set(&strings_from_chars(&rd.assignees));
    let parents = to_id_set(&rd.parents);
    let children = to_id_set(&rd.children);
    let text = match &rd.text {
        Some(t) => Some(string_from_chars(t)),
        None => None,
    };
    Ok(
        TaskFilter {
            states,
            state_kinds,
            labels,
            assignees,
            parents,
            children,
            text,
            updated,
        },
    )
}


/// The names of kinds.
pub open spec fn kind_names(ks: Seq<StateKind>) -> Seq<Seq<char>> {
    ks.map_values(|k: StateKind| state_kind_name(k))
}

/// The names of kinds, each after a `!`.
pub open spec fn negated_kind_names(ks: Seq<StateKind>) -> Seq<Seq<char>> {
    ks.map_values(|k: StateKind| "!"@ + state_kind_name(k))
}

/// The `state_kinds` value that writes a kind filter.
pub open spec fn kind_editor_value(f: KindFilterView) -> Seq<char> {
    join(kind_names(f.included) + negated_kind_names(f.excluded), ", "@)
}

/// One part when `present`, none otherwise.
pub open spec fn part_if(present: bool, part: Seq<char>) -> Seq<Seq<char>> {
    if present {
        seq![part]
    } else {
        Seq::<Seq<char>>::empty()
    }
}

/// Reading the names of kinds to keep, followed by the `!`-names of kinds
/// to leave out, gives back both lists.
proof fn lemma_kind_tokens_of_names(kept: Seq<StateKind>, dropped: Seq<StateKind>)
    ensures
        kind_tokens(kind_names(kept) + negated_kind_names(dropped)) == Ok::<
            (Seq<StateKind>, Seq<StateKind>),
            Seq<char>,
        >((kept, dropped)),
    decreases kept.len() + dropped.len(),
{
    let toks = kind_names(kept) + negated_kind_names(dropped);
    if dropped.len() > 0 {
        let k = dropped.last();
        lemma_kind_tokens_of_names(kept, dropped.drop_last());
        assert(toks.drop_last() =~= kind_names(kept) + negated_kind_names(dropped.drop_last()));
        crate::editor::lemma_kind_name_reads_back(k);
        assert(toks.last() == "!"@ + state_kind_name(k));
        assert(toks.last()[0] == '!');
        assert(toks.last().drop_first() == state_kind_name(k));
        assert(dropped.drop_last().push(k) =~= dropped);
    } else if kept.len() > 0 {
        let k = kept.last();
        lemma_kind_tokens_of_names(kept.drop_last(), dropped);
        assert(toks.drop_last() =~= kind_names(kept.drop_last()) + negated_kind_names(dropped));
        crate::editor::lemma_kind_name_reads_back(k);
        assert(toks.last() == state_kind_name(k));
        assert(toks.last()[0] != '!');
        assert(negated_kind_names(dropped) =~= Seq::<Seq<char>>::empty());
        assert(kept.drop_last().push(k) =~= kept);
    } else {
        assert(toks =~= Seq::<Seq<char>>::empty());
        assert(kept =~= Seq::<StateKind>::empty());
        assert(dropped =~= Seq::<StateKind>::empty());
    }
}

/// Writing a kind filter as its editor value and reading the value back
/// gives the same filter, for filters whose lists are in kind order without
/// repeats, as the reader makes them.
pub proof fn lemma_kind_filter_round_trip(f: KindFilterView)
    requires
        f.included == kind_set(f.included),
        f.excluded == kind_set(f.excluded),
    ensures
        kind_filter_of(kind_editor_value(f)) == Ok::<KindFilterView, Seq<char>>(f),
{
    let names = kind_names(f.included) + negated_kind_names(f.excluded);
    let input = kind_editor_value(f);
    assert forall|i: int| 0 <= i < names.len() implies crate::editor::is_list_entry(#[trigger] names[i]) by {
        if i < f.included.len() {
            crate::editor::lemma_kind_name_reads_back(f.included[i]);
            assert(names[i] == state_kind_name(f.included[i]));
        } else {
            crate::editor::lemma_kind_name_reads_back(f.excluded[i - f.included.len()]);
            assert(names[i] == "!"@ + state_kind_name(f.excluded[i - f.included.len()]));
        }
    }
    crate::editor::lemma_parse_joined_list(names);
    lemma_kind_tokens_of_names(f.included, f.excluded);
    if names.len() == 0 {
        assert(f.included.len() == 0 && f.excluded.len() == 0);
        assert(f.included =~= Seq::<StateKind>::empty());
        assert(f.excluded =~= Seq::<StateKind>::empty());
        assert(trim(input).len() == 0);
    } else {
        assert forall|i: int| 0 <= i < names.len() implies (#[trigger] names[i]).len() > 0 by {
            assert(crate::editor::is_list_entry(names[i]));
        }
        crate::text::lemma_join_ends(names, ", "@);
        assert(crate::editor::is_list_entry(names[0]));
        assert(crate::editor::is_list_entry(names.last()));
        crate::text::lemma_trimmed_ends(names[0]);
        crate::text::lemma_trimmed_ends(names.last());
        crate::text::lemma_trim_fixed(input);
    }
}

/// The summary parts of a kind filter.
pub open spec fn kind_summary_parts(f: KindFilterView) -> Seq<Seq<char>> {
    part_if(f.included.len() > 0, "state-kind="@ + join(kind_names(f.included), ", "@)) + part_if(
        f.excluded.len() > 0,
        "state-kind!="@ + join(kind_names(f.excluded), ", "@),
    )
}

/// The first eight characters of an identifier's text.
pub open spec fn short_id(v: u128) -> Seq<char> {
    uuid_text(v).take(8)
}

/// The text of an instant as the `time` crate displays it when RFC 3339
/// cannot render it; none when the crate cannot represent the instant.
pub uninterp spec fn datetime_display_text(ts_nanos: i128) -> Option<Seq<char>>;

/// The text of an instant in the filter editor and summary: RFC 3339, or
/// else the crate's display text.
pub open spec fn time_text(ts: i128) -> Seq<char> {
    match rfc3339_text(ts) {
        Some(t) => t,
        None => match datetime_display_text(ts) {
            Some(t) => t,
            None => Seq::<char>::empty(),
        },
    }
}

/// A time condition of the summary, when set.
pub open spec fn time_part(label: Seq<char>, t: Option<i128>) -> Seq<Seq<char>> {
    match t {
        Some(ts) => seq![label + time_text(ts)],
        None => Seq::<Seq<char>>::empty(),
    }
}

/// The text condition of the summary, when the text is not blank.
pub open spec fn text_part(text: Option<Seq<char>>) -> Seq<Seq<char>> {
    match text {
        Some(t) => part_if(trim(t).len() > 0, "text=\""@ + trim(t) + "\""@),
        None => Seq::<Seq<char>>::empty(),
    }
}

/// The time conditions of the summary.
pub open spec fn time_parts(updated: Option<(Option<i128>, Option<i128>)>) -> Seq<Seq<char>> {
    match updated {
        Some((since, until)) => time_part("since="@, since) + time_part("until="@, until),
        None => Seq::<Seq<char>>::empty(),
    }
}

/// The conditions listed by the summary, in order.
pub open spec fn summary_parts(f: TaskFilterView) -> Seq<Seq<char>> {
    part_if(f.states.len() > 0, "state="@ + join(f.states, ", "@)) + part_if(
        f.labels.len() > 0,
        "label="@ + join(f.labels, ", "@),
    ) + part_if(f.assignees.len() > 0, "assignee="@ + join(f.assignees, ", "@)) + part_if(
        f.parents.len() > 0,
        "parent="@ + join(f.parents.map_values(|v: u128| short_id(v)), ", "@),
    ) + part_if(
        f.children.len() > 0,
        "child="@ + join(f.children.map_values(|v: u128| short_id(v)), ", "@),
    ) + text_part(f.text) + time_parts(f.updated) + kind_summary_parts(
        KindFilterView { included: f.include_kinds, excluded: f.exclude_kinds },
    )
}

/// The summary of a filter: its active conditions separated by ` / `, or
/// `未設定` when there is none.
pub open spec fn filter_summary(f: TaskFilterView) -> Seq<char> {
    if summary_parts(f).len() == 0 {
        "未設定"@
    } else {
        join(summary_parts(f), " / "@)
    }
}


/// The text of an optional time, empty when unset.
pub open spec fn optional_time_text(t: Option<i128>) -> Seq<char> {
    match t {
        Some(ts) => time_text(ts),
        None => Seq::<char>::empty(),
    }
}

/// The filter editor's initial text for a filter.
pub open spec fn filter_template(f: TaskFilterView) -> Seq<char> {
    join(filter_form_lines(f), "\n"@)
}

/// The lines of the filter editor's initial text for a filter, the last
/// one empty.
pub open spec fn filter_form_lines(f: TaskFilterView) -> Seq<Seq<char>> {
    let (since, until) = match f.updated {
        Some(u) => u,
        None => (None, None),
    };
    seq![
        "# フィルタを編集します。空欄のフィールドは該当条件なしとして扱われます。"@,
        "# states/labels/assignees/parents/children はカンマ区切りで入力してください。"@,
        "# updated_since / updated_until は RFC3339 (例: 2025-01-01T09:00:00+09:00) 形式。"@,
        "# state_kinds には done/in_progress などの kind を指定し、!done で除外できます。"@,
        "# state_kinds の候補: "@ + "done, in_progress, blocked, todo, backlog"@,
        "states: "@ + join(f.states, ", "@),
        "state_kinds: "@ + kind_editor_value(
            KindFilterView { included: f.include_kinds, excluded: f.exclude_kinds },
        ),
        "labels: "@ + join(f.labels, ", "@),
        "assignees: "@ + join(f.assignees, ", "@),
        "parents: "@ + join(f.parents.map_values(|v: u128| uuid_text(v)), ", "@),
        "children: "@ + join(f.children.map_values(|v: u128| uuid_text(v)), ", "@),
        "text: "@ + match f.text {
            Some(t) => t,
            None => Seq::<char>::empty(),
        },
        "updated_since: "@ + optional_time_text(since),
        "updated_until: "@ + optional_time_text(until),
        Seq::<char>::empty(),
    ]
}

/// Formats an instant with the `time` crate's `Display`
/// (`OffsetDateTime::from_unix_timestamp_nanos`, then `to_string`). The
/// contract names the result and claims only that it is a function of the
/// instant.
#[verifier::external_body]
pub(crate) fn display_datetime(ts_nanos: i128) -> (r: Option<String>)
    ensures
        crate::task::opt_view(r) == datetime_display_text(ts_nanos),
{
    match time::OffsetDateTime::from_unix_timestamp_nanos(ts_nanos) {
        Ok(t) => Some(t.to_string()),
        Err(_) => None,
    }
}

/// The text of an instant in the filter editor and summary.
pub fn format_time(ts: i128) -> (r: String)
    ensures
        r@ == time_text(ts),
{
    match crate::event_log::rfc3339(ts) {
        Some(t) => t,
        None => match display_datetime(ts) {
            Some(t) => t,
            None => String::new(),
        },
    }
}

fn kind_name_strings(ks: &Vec<StateKind>, negated: bool) -> (r: Vec<String>)
    ensures
        views(r@) == if negated {
            negated_kind_names(ks@)
        } else {
            kind_names(ks@)
        },
{
    let mut out: Vec<String> = Vec::new();
    let mut i: usize = 0;
    while i < ks.len()
        invariant
            i <= ks@.len(),
            views(out@) == if negated {
                negated_kind_names(ks@.take(i as int))
            } else {
                kind_names(ks@.take(i as int))
            },
        decreases ks@.len() - i,
    {
        let name = ks[i].as_str();
        let s = if negated {
            crate::text::concat2("!", name)
        } else {
            owned(name)
        };
        let ghost before = out@;
        out.push(s);
        assert(views(out@) =~= views(before).push(s@));
        assert(ks@.take(i + 1) =~= ks@.take(i as int).push(ks@[i as int]));
        assert(kind_names(ks@.take(i + 1)) =~= kind_names(ks@.take(i as int)).push(state_kind_name(ks@[i as int])));
        assert(negated_kind_names(ks@.take(i + 1)) =~= negated_kind_names(ks@.take(i as int)).push(
            "!"@ + state_kind_name(ks@[i as int]),
        ));
        i = i + 1;
    }
    assert(ks@.take(ks@.len() as int) =~= ks@);
    out
}

impl StateKindFilter {
    /// The view of the filter.
    pub open spec fn kinds_view(self) -> KindFilterView {
        KindFilterView { included: self.included@, excluded: self.excluded@ }
    }

    /// No kind is kept or left out.
    pub fn is_empty(&self) -> (r: bool)
        ensures
            r == (self.included@.len() == 0 && self.excluded@.len() == 0),
    {
        self.included.len() == 0 && self.excluded.len() == 0
    }

    /// The `state_kinds` value that writes the filter: the kept kinds, then
    /// the left-out kinds after `!`, separated by `, `.
    pub fn to_editor_value(&self) -> (r: String)
        ensures
            r@ == kind_editor_value(self.kinds_view()),
    {
        let mut names = kind_name_strings(&self.included, false);
        let mut neg = kind_name_strings(&self.excluded, true);
        let ghost a = views(names@);
        let ghost b = views(neg@);
        names.append(&mut neg);
        assert(views(names@) =~= a + b);
        crate::text::join_strings(&names, ", ")
    }

    /// The summary parts of the filter: `state-kind=` with the kept kinds
    /// and `state-kind!=` with the left-out kinds, each when there are any.
    pub fn summary_tokens(&self) -> (r: Vec<String>)
        ensures
            views(r@) == kind_summary_parts(self.kinds_view()),
    {
        let mut out: Vec<String> = Vec::new();
        if self.included.len() > 0 {
            let names = kind_name_strings(&self.included, false);
            out.push(crate::text::concat2("state-kind=", crate::text::join_strings(&names, ", ").as_str()));
        }
        let ghost a = views(out@);
        if self.excluded.len() > 0 {
            let names = kind_name_strings(&self.excluded, false);
            out.push(crate::text::concat2("state-kind!=", crate::text::join_strings(&names, ", ").as_str()));
        }
        assert(views(out@) =~= kind_summary_parts(self.kinds_view()));
        out
    }
}

/// The first eight characters of an identifier's text.
pub fn short_task_id(id: &TaskId) -> (r: String)
    ensures
        r@ == short_id(id.value),
{
    let text = id.to_text();
    let chars = chars_of(text.as_str());
    proof {
        crate::task::lemma_uuid_text_len(id.value);
    }
    string_from_chars(&slice_chars(&chars, 0, 8))
}

fn short_ids(ids: &Vec<TaskId>) -> (r: Vec<String>)
    ensures
        views(r@) == id_values(ids@).map_values(|v: u128| short_id(v)),
{
    let mut out: Vec<String> = Vec::new();
    let mut i: usize = 0;
    while i < ids.len()
        invariant
            i <= ids@.len(),
            views(out@) == id_values(ids@.take(i as int)).map_values(|v: u128| short_id(v)),
        decreases ids@.len() - i,
    {
        let s = short_task_id(&ids[i]);
        let ghost before = out@;
        out.push(s);
        assert(views(out@) =~= views(before).push(s@));
        assert(id_values(ids@.take(i + 1)).map_values(|v: u128| short_id(v)) =~= id_values(
            ids@.take(i as int),
        ).map_values(|v: u128| short_id(v)).push(short_id(ids@[i as int].value)));
        i = i + 1;
    }
    assert(ids@.take(ids@.len() as int) =~= ids@);
    out
}

impl Default for StateKindFilter {
    /// No kind kept or left out.
    fn default() -> (r: Self)
        ensures
            r.included@.len() == 0,
            r.excluded@.len() == 0,
    {
        StateKindFilter { included: Vec::new(), excluded: Vec::new() }
    }
}

impl Default for TaskFilter {
    /// The filter with no condition.
    fn default() -> (r: Self)
        ensures
            no_conditions(r@),
    {
        TaskFilter {
            states: Vec::new(),
            state_kinds: StateKindFilter::default(),
            labels: Vec::new(),
            assignees: Vec::new(),
            parents: Vec::new(),
            children: Vec::new(),
            text: None,
            updated: None,
        }
    }
}

/// The filter sets no condition.
pub open spec fn no_conditions(f: TaskFilterView) -> bool {
    &&& f.states.len() == 0
    &&& f.labels.len() == 0
    &&& f.assignees.len() == 0
    &&& f.parents.len() == 0
    &&& f.children.len() == 0
    &&& f.text is None
    &&& f.updated is None
    &&& f.include_kinds.len() == 0
    &&& f.exclude_kinds.len() == 0
}

/// The filter the task list starts with: the given one, or, when it sets no
/// condition, the one that leaves out the tasks of the `done` kind.
pub fn initial_view_filter(current: TaskFilter) -> (r: TaskFilter)
    ensures
        no_conditions(current@) ==> no_conditions(
            TaskFilterView { exclude_kinds: Seq::<StateKind>::empty(), ..r@ },
        ) && r@.exclude_kinds == seq![StateKind::Done],
        !no_conditions(current@) ==> r@ == current@,
{
    if current.is_empty() {
        let mut filter = TaskFilter::default();
        filter.state_kinds.excluded.push(StateKind::Done);
        assert(filter@.exclude_kinds =~= seq![StateKind::Done]);
        filter
    } else {
        current
    }
}

/// Whether two lists of strings are equal.
fn strings_equal(a: &Vec<String>, b: &Vec<String>) -> (r: bool)
    ensures
        r == (views(a@) == views(b@)),
{
    if a.len() != b.len() {
        return false;
    }
    let mut i: usize = 0;
    while i < a.len()
        invariant
            i <= a@.len(),
            a@.len() == b@.len(),
            forall|k: int| 0 <= k < i ==> a@[k]@ == b@[k]@,
        decreases a@.len() - i,
    {
        if !crate::text::str_eq(a[i].as_str(), b[i].as_str()) {
            assert(views(a@)[i as int] != views(b@)[i as int]);
            return false;
        }
        i = i + 1;
    }
    assert(views(a@) =~= views(b@));
    true
}

/// Whether two lists of kinds are equal.
fn kinds_equal(a: &Vec<StateKind>, b: &Vec<StateKind>) -> (r: bool)
    ensures
        r == (a@ == b@),
{
    if a.len() != b.len() {
        return false;
    }
    let mut i: usize = 0;
    while i < a.len()
        invariant
            i <= a@.len(),
            a@.len() == b@.len(),
            forall|k: int| 0 <= k < i ==> a@[k] == b@[k],
        decreases a@.len() - i,
    {
        if a[i] != b[i] {
            return false;
        }
        i = i + 1;
    }
    assert(a@ =~= b@);
    true
}

/// Whether two lists of task identifiers denote the same identifiers.
fn ids_equal(a: &Vec<TaskId>, b: &Vec<TaskId>) -> (r: bool)
    ensures
        r == (id_values(a@) == id_values(b@)),
{
    if a.len() != b.len() {
        return false;
    }
    let mut i: usize = 0;
    while i < a.len()
        invariant
            i <= a@.len(),
            a@.len() == b@.len(),
            forall|k: int| 0 <= k < i ==> a@[k].value == b@[k].value,
        decreases a@.len() - i,
    {
        if a[i].value != b[i].value {
            assert(id_values(a@)[i as int] != id_values(b@)[i as int]);
            return false;
        }
        i = i + 1;
    }
    assert(id_values(a@) =~= id_values(b@));
    true
}

impl TaskFilter {
    /// Whether the two filters set the same conditions.
    pub fn same_as(&self, other: &TaskFilter) -> (r: bool)
        ensures
            r == (self@ == other@),
    {
        let text_equal = match (&self.text, &other.text) {
            (Some(a), Some(b)) => crate::text::str_eq(a.as_str(), b.as_str()),
            (None, None) => true,
            _ => false,
        };
        let updated_equal = match (self.updated, other.updated) {
            (Some(a), Some(b)) => a.since == b.since && a.until == b.until,
            (None, None) => true,
            _ => false,
        };
        let r = strings_equal(&self.states, &other.states) && strings_equal(&self.labels, &other.labels)
            && strings_equal(&self.assignees, &other.assignees) && ids_equal(
            &self.parents,
            &other.parents,
        ) && ids_equal(&self.children, &other.children) && text_equal && updated_equal
            && kinds_equal(&self.state_kinds.included, &other.state_kinds.included) && kinds_equal(
            &self.state_kinds.excluded,
            &other.state_kinds.excluded,
        );
        proof {
            if !r {
                if !text_equal {
                    assert(self@.text != other@.text);
                }
                if !updated_equal {
                    assert(self@.updated != other@.updated);
                }
            }
        }
        r
    }

    /// No condition is set.
    pub fn is_empty(&self) -> (r: bool)
        ensures
            r == no_conditions(self@),
    {
        self.states.len() == 0 && self.labels.len() == 0 && self.assignees.len() == 0
            && self.parents.len() == 0 && self.children.len() == 0 && self.text.is_none()
            && self.updated.is_none() && self.state_kinds.is_empty()
    }

    /// The conditions listed by the summary.
    pub fn summary_parts(&self) -> (r: Vec<String>)
        ensures
            views(r@) == summary_parts(self@),
    {
        let ghost f = self@;
        let mut parts = labeled_set_part("state=", &self.states);
        let mut more = labeled_set_part("label=", &self.labels);
        append_parts(&mut parts, &mut more);
        let mut more = labeled_set_part("assignee=", &self.assignees);
        append_parts(&mut parts, &mut more);
        let mut more = labeled_ids_part("parent=", &self.parents);
        append_parts(&mut parts, &mut more);
        let mut more = labeled_ids_part("child=", &self.children);
        append_parts(&mut parts, &mut more);
        let mut more = text_parts(&self.text);
        append_parts(&mut parts, &mut more);
        let mut more = updated_parts(self.updated);
        append_parts(&mut parts, &mut more);
        let mut more = self.state_kinds.summary_tokens();
        append_parts(&mut parts, &mut more);
        parts
    }

    /// The summary of the filter shown in the status bar.
    pub fn summarize(&self) -> (r: String)
        ensures
            r@ == filter_summary(self@),
    {
        let parts = self.summary_parts();
        if parts.len() == 0 {
            owned("未設定")
        } else {
            crate::text::join_strings(&parts, " / ")
        }
    }
}

fn append_parts(parts: &mut Vec<String>, more: &mut Vec<String>)
    ensures
        views(final(parts)@) == views(old(parts)@) + views(old(more)@),
{
    let ghost a = views(parts@);
    let ghost b = views(more@);
    parts.append(more);
    assert(views(parts@) =~= a + b);
}

fn labeled_set_part(label: &str, values: &Vec<String>) -> (r: Vec<String>)
    ensures
        views(r@) == part_if(values@.len() > 0, label@ + join(views(values@), ", "@)),
{
    let mut out: Vec<String> = Vec::new();
    if values.len() > 0 {
        out.push(crate::text::concat2(label, crate::text::join_strings(values, ", ").as_str()));
    }
    assert(views(out@) =~= part_if(values@.len() > 0, label@ + join(views(values@), ", "@)));
    out
}

fn labeled_ids_part(label: &str, ids: &Vec<TaskId>) -> (r: Vec<String>)
    ensures
        views(r@) == part_if(
            ids@.len() > 0,
            label@ + join(id_values(ids@).map_values(|v: u128| short_id(v)), ", "@),
        ),
{
    let mut out: Vec<String> = Vec::new();
    if ids.len() > 0 {
        out.push(crate::text::concat2(label, crate::text::join_strings(&short_ids(ids), ", ").as_str()));
    }
    assert(views(out@) =~= part_if(
        ids@.len() > 0,
        label@ + join(id_values(ids@).map_values(|v: u128| short_id(v)), ", "@),
    ));
    out
}

fn text_parts(text: &Option<String>) -> (r: Vec<String>)
    ensures
        views(r@) == text_part(crate::task::opt_view(*text)),
{
    let mut out: Vec<String> = Vec::new();
    match text {
        Some(t) => {
            let trimmed = crate::text::trim_str(t.as_str());
            if !trimmed.as_str().is_empty() {
                let mut part = crate::text::concat2("text=\"", trimmed.as_str());
                crate::text::push_str(&mut part, "\"");
                out.push(part);
            } else {
                assert(trimmed@ =~= Seq::<char>::empty());
            }
        },
        None => {},
    }
    assert(views(out@) =~= text_part(crate::task::opt_view(*text)));
    out
}

fn updated_parts(updated: Option<UpdatedFilter>) -> (r: Vec<String>)
    ensures
        views(r@) == time_parts(
            match updated {
                Some(u) => Some((u.since, u.until)),
                None => None,
            },
        ),
{
    let mut out: Vec<String> = Vec::new();
    match updated {
        Some(u) => {
            match u.since {
                Some(t) => out.push(crate::text::concat2("since=", format_time(t).as_str())),
                None => {},
            }
            let ghost a = views(out@);
            match u.until {
                Some(t) => out.push(crate::text::concat2("until=", format_time(t).as_str())),
                None => {},
            }
            assert(views(out@) =~= a + time_part("until="@, u.until));
            assert(a =~= time_part("since="@, u.since));
        },
        None => {},
    }
    assert(views(out@) =~= time_parts(
        match updated {
            Some(u) => Some((u.since, u.until)),
            None => None,
        },
    ));
    out
}


fn full_ids(ids: &Vec<TaskId>) -> (r: Vec<String>)
    ensures
        views(r@) == id_values(ids@).map_values(|v: u128| uuid_text(v)),
{
    let mut out: Vec<String> = Vec::new();
    let mut i: usize = 0;
    while i < ids.len()
        invariant
            i <= ids@.len(),
            views(out@) == id_values(ids@.take(i as int)).map_values(|v: u128| uuid_text(v)),
        decreases ids@.len() - i,
    {
        let s = ids[i].to_text();
        let ghost before = out@;
        out.push(s);
        assert(views(out@) =~= views(before).push(s@));
        assert(id_values(ids@.take(i + 1)).map_values(|v: u128| uuid_text(v)) =~= id_values(
            ids@.take(i as int),
        ).map_values(|v: u128| uuid_text(v)).push(uuid_text(ids@[i as int].value)));
        i = i + 1;
    }
    assert(ids@.take(ids@.len() as int) =~= ids@);
    out
}

fn optional_time_string(t: Option<i128>) -> (r: String)
    ensures
        r@ == optional_time_text(t),
{
    match t {
        Some(ts) => format_time(ts),
        None => String::new(),
    }
}

/// The filter editor's initial text for a filter.
pub fn filter_editor_template(filter: &TaskFilter) -> (r: String)
    ensures
        r@ == filter_template(filter@),
{
    let (since, until) = match filter.updated {
        Some(u) => (u.since, u.until),
        None => (None, None),
    };
    let text = match &filter.text {
        Some(t) => owned(t.as_str()),
        None => String::new(),
    };
    let mut lines: Vec<String> = Vec::new();
    lines.push(owned("# フィルタを編集します。空欄のフィールドは該当条件なしとして扱われます。"));
    lines.push(owned("# states/labels/assignees/parents/children はカンマ区切りで入力してください。"));
    lines.push(owned("# updated_since / updated_until は RFC3339 (例: 2025-01-01T09:00:00+09:00) 形式。"));
    lines.push(owned("# state_kinds には done/in_progress などの kind を指定し、!done で除外できます。"));
    lines.push(crate::text::concat2("# state_kinds の候補: ", crate::editor::state_kind_options_hint()));
    lines.push(crate::text::concat2("states: ", crate::text::join_strings(&filter.states, ", ").as_str()));
    lines.push(crate::text::concat2("state_kinds: ", filter.state_kinds.to_editor_value().as_str()));
    lines.push(crate::text::concat2("labels: ", crate::text::join_strings(&filter.labels, ", ").as_str()));
    lines.push(crate::text::concat2("assignees: ", crate::text::join_strings(&filter.assignees, ", ").as_str()));
    lines.push(crate::text::concat2("parents: ", crate::text::join_strings(&full_ids(&filter.parents), ", ").as_str()));
    lines.push(crate::text::concat2("children: ", crate::text::join_strings(&full_ids(&filter.children), ", ").as_str()));
    lines.push(crate::text::concat2("text: ", text.as_str()));
    lines.push(crate::text::concat2("updated_since: ", optional_time_string(since).as_str()));
    lines.push(crate::text::concat2("updated_until: ", optional_time_string(until).as_str()));
    lines.push(String::new());
    let ghost f = filter@;
    assert(views(lines@) =~= seq![
        "# フィルタを編集します。空欄のフィールドは該当条件なしとして扱われます。"@,
        "# states/labels/assignees/parents/children はカンマ区切りで入力してください。"@,
        "# updated_since / updated_until は RFC3339 (例: 2025-01-01T09:00:00+09:00) 形式。"@,
        "# state_kinds には done/in_progress などの kind を指定し、!done で除外できます。"@,
        "# state_kinds の候補: "@ + "done, in_progress, blocked, todo, backlog"@,
        "states: "@ + join(f.states, ", "@),
        "state_kinds: "@ + kind_editor_value(
            KindFilterView { included: f.include_kinds, excluded: f.exclude_kinds },
        ),
        "labels: "@ + join(f.labels, ", "@),
        "assignees: "@ + join(f.assignees, ", "@),
        "parents: "@ + join(f.parents.map_values(|v: u128| uuid_text(v)), ", "@),
        "children: "@ + join(f.children.map_values(|v: u128| uuid_text(v)), ", "@),
        "text: "@ + match f.text {
            Some(t) => t,
            None => Seq::<char>::empty(),
        },
        "updated_since: "@ + optional_time_text(since),
        "updated_until: "@ + optional_time_text(until),
        Seq::<char>::empty(),
    ]);
    crate::text::join_strings(&lines, "\n")
}

} // verus!
