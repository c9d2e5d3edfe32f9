//! Filters built from conditions given as plain values, on the command line
//! or in a request: sets of states, labels, assignees and related tasks,
//! state kinds by name, a free text and an update time range.
use vstd::prelude::*;

use crate::commands::first_bad_id;
use crate::editor::{kind_by_name, parse_state_kind_name};
use crate::filter::{
    is_id_set, kind_set, kinds_in_order, parse_rfc3339, rfc3339_parsed, to_id_set, StateKindFilter,
    TaskFilter, TaskFilterView, UpdatedFilter,
};
use crate::sets::{sort_set, to_sorted_set};
use crate::task::{opt_view, parse_uuid, StateKind};
use crate::text::{concat2, owned, push_str, trim, trim_str, views};

verus! {

/// Filter conditions given as plain values.
#[derive(Debug)]
pub struct FilterArgs {
    /// Workflow states to keep.
    pub states: Vec<String>,
    /// Labels to require.
    pub labels: Vec<String>,
    /// Assignees to match.
    pub assignees: Vec<String>,
    /// Names of the state kinds to keep.
    pub include_state_kinds: Vec<String>,
    /// Names of the state kinds to leave out.
    pub exclude_state_kinds: Vec<String>,
    /// Parent task identifiers.
    pub parents: Vec<String>,
    /// Child task identifiers.
    pub children: Vec<String>,
    /// Lower bound of the last update (RFC 3339).
    pub updated_since: Option<String>,
    /// Upper bound of the last update (RFC 3339).
    pub updated_until: Option<String>,
    /// Free text.
    pub text: Option<String>,
}

/// The first name, from position `i` on, that denotes no state kind.
pub open spec fn first_bad_kind(names: Seq<Seq<char>>, i: int) -> Option<int>
    decreases names.len() - i,
{
    if i < 0 || i >= names.len() {
        None
    } else if kind_by_name(names[i]) is None {
        Some(i)
    } else {
        first_bad_kind(names, i + 1)
    }
}

/// A first bad identifier lies within the inputs.
proof fn lemma_first_bad_id_in(inputs: Seq<Seq<char>>, i: int)
    ensures
        first_bad_id(inputs, i) matches Some(k) ==> i <= k < inputs.len() && parse_uuid(inputs[k])
            is None,
    decreases inputs.len() - i,
{
    if 0 <= i < inputs.len() && parse_uuid(inputs[i]) is Some {
        lemma_first_bad_id_in(inputs, i + 1);
    }
}

/// A first bad kind name lies within the names.
proof fn lemma_first_bad_kind_in(names: Seq<Seq<char>>, i: int)
    ensures
        first_bad_kind(names, i) matches Some(k) ==> i <= k < names.len() && kind_by_name(names[k])
            is None,
    decreases names.len() - i,
{
    if 0 <= i < names.len() && kind_by_name(names[i]) is Some {
        lemma_first_bad_kind_in(names, i + 1);
    }
}

/// The state kinds the names denote.
pub open spec fn kinds_named(names: Seq<Seq<char>>) -> Seq<StateKind> {
    names.map_values(|n: Seq<char>| kind_by_name(n)->0)
}

/// The error for a name that denotes no state kind.
pub open spec fn bad_kind_message(name: Seq<char>) -> Seq<char> {
    "invalid state kind: "@ + name
}

/// The instant a time condition gives, when it gives one that can be read.
pub open spec fn time_value(value: Option<Seq<char>>) -> Option<i128> {
    match value {
        Some(t) => match rfc3339_parsed(t) {
            Ok(x) => Some(x),
            Err(_) => None,
        },
        None => None,
    }
}

/// The error for a time condition that cannot be read, if it is one.
pub open spec fn time_error(label: Seq<char>, value: Option<Seq<char>>) -> Option<Seq<char>> {
    match value {
        Some(t) => match rfc3339_parsed(t) {
            Ok(_) => None,
            Err(e) => Some("invalid "@ + label + " timestamp '"@ + t + "': "@ + e),
        },
        None => None,
    }
}

/// The text condition: the trimmed text, none when it is blank.
pub open spec fn text_condition(text: Option<Seq<char>>) -> Option<Seq<char>> {
    match text {
        Some(t) => if trim(t).len() == 0 {
            None
        } else {
            Some(trim(t))
        },
        None => None,
    }
}

/// The conditions of a filter, as plain values, with the related tasks
/// already read.
pub struct FilterConditions {
    pub states: Seq<Seq<char>>,
    pub labels: Seq<Seq<char>>,
    pub assignees: Seq<Seq<char>>,
    pub parents: Seq<u128>,
    pub children: Seq<u128>,
    pub kept: Seq<Seq<char>>,
    pub dropped: Seq<Seq<char>>,
    pub text: Option<Seq<char>>,
    pub since: Option<Seq<char>>,
    pub until: Option<Seq<char>>,
}

/// Why the conditions make no filter, if they do not: the first kind name
/// to keep that denotes no kind, else the first such name to leave out,
/// else a lower bound, then an upper bound, that cannot be read.
pub open spec fn conditions_error(c: FilterConditions) -> Option<Seq<char>> {
    match first_bad_kind(c.kept, 0) {
        Some(k) => Some(bad_kind_message(c.kept[k])),
        None => match first_bad_kind(c.dropped, 0) {
            Some(k) => Some(bad_kind_message(c.dropped[k])),
            None => match time_error("updated_since"@, c.since) {
                Some(e) => Some(e),
                None => time_error("updated_until"@, c.until),
            },
        },
    }
}

/// Whether `f` is the filter that the conditions make.
pub open spec fn makes_filter(c: FilterConditions, f: TaskFilterView) -> bool {
    &&& f.states == sort_set(c.states)
    &&& f.labels == sort_set(c.labels)
    &&& f.assignees == sort_set(c.assignees)
    &&& is_id_set(f.parents, c.parents)
    &&& is_id_set(f.children, c.children)
    &&& f.include_kinds == kind_set(kinds_named(c.kept))
    &&& f.exclude_kinds == kind_set(kinds_named(c.dropped))
    &&& f.text == text_condition(c.text)
    &&& f.updated == if c.since is None && c.until is None {
        None
    } else {
        Some((time_value(c.since), time_value(c.until)))
    }
}

/// Read state kind names, in order; the first that denotes no kind is the
/// error.
fn read_kind_names(names: &Vec<String>) -> (r: Result<Vec<StateKind>, String>)
    ensures
        match first_bad_kind(views(names@), 0) {
            Some(k) => r matches Err(m) && m@ == bad_kind_message(names@[k]@),
            None => r matches Ok(v) && v@ == kinds_named(views(names@)),
        },
{
    let ghost vs = views(names@);
    let mut out: Vec<StateKind> = Vec::new();
    let mut i: usize = 0;
    while i < names.len()
        invariant
            i <= names@.len(),
            vs == views(names@),
            first_bad_kind(vs, 0) == first_bad_kind(vs, i as int),
            out@ == kinds_named(vs.take(i as int)),
        decreases names@.len() - i,
    {
        match parse_state_kind_name(names[i].as_str()) {
            Some(k) => {
                let ghost before = out@;
                out.push(k);
                assert(out@ =~= kinds_named(vs.take(i + 1)));
            },
            None => {
                assert(first_bad_kind(vs, i as int) == Some(i as int));
                return Err(concat2("invalid state kind: ", names[i].as_str()));
            },
        }
        i = i + 1;
    }
    assert(vs.take(names@.len() as int) =~= vs);
    Ok(out)
}

/// Read an optional time condition.
fn read_time(label: &str, value: &Option<String>) -> (r: Result<Option<i128>, String>)
    ensures
        match time_error(label@, opt_view(*value)) {
            Some(e) => r matches Err(m) && m@ == e,
            None => r matches Ok(t) && t == time_value(opt_view(*value)),
        },
{
    match value {
        None => Ok(None),
        Some(v) => match parse_rfc3339(v.as_str()) {
            Ok(t) => Ok(Some(t)),
            Err(e) => {
                let mut msg = concat2("invalid ", label);
                push_str(&mut msg, " timestamp '");
                push_str(&mut msg, v.as_str());
                push_str(&mut msg, "': ");
                push_str(&mut msg, e.as_str());
                Err(msg)
            },
        },
    }
}

/// The text condition: trimmed, none when blank.
fn read_text(text: &Option<String>) -> (r: Option<String>)
    ensures
        opt_view(r) == text_condition(opt_view(*text)),
{
    match text {
        None => None,
        Some(t) => {
            let trimmed = trim_str(t.as_str());
            if trimmed.as_str().is_empty() {
                None
            } else {
                Some(trimmed)
            }
        },
    }
}

/// The inputs an identifier is read from: each trimmed, or as given.
pub open spec fn id_inputs(inputs: Seq<Seq<char>>, trimmed: bool) -> Seq<Seq<char>> {
    if trimmed {
        inputs.map_values(|s: Seq<char>| trim(s))
    } else {
        inputs
    }
}

/// The identifiers the inputs denote.
pub open spec fn id_values_of(inputs: Seq<Seq<char>>) -> Seq<u128> {
    inputs.map_values(|s: Seq<char>| parse_uuid(s)->0)
}

/// Read task identifiers, in order, each trimmed first when `trimmed`; the
/// first that denotes none is the error, `prefix` followed by the input.
fn read_ids(inputs: &Vec<String>, trimmed: bool, prefix: &str) -> (r: Result<Vec<u128>, String>)
    ensures
        match first_bad_id(id_inputs(views(inputs@), trimmed), 0) {
            Some(k) => r matches Err(m) && m@ == prefix@ + id_inputs(views(inputs@), trimmed)[k],
            None => r matches Ok(v) && v@ == id_values_of(id_inputs(views(inputs@), trimmed)),
        },
{
    let ghost vs = id_inputs(views(inputs@), trimmed);
    let mut out: Vec<u128> = Vec::new();
    let mut i: usize = 0;
    while i < inputs.len()
        invariant
            i <= inputs@.len(),
            vs == id_inputs(views(inputs@), trimmed),
            vs.len() == inputs@.len(),
            first_bad_id(vs, 0) == first_bad_id(vs, i as int),
            out@ == id_values_of(vs.take(i as int)),
        decreases inputs@.len() - i,
    {
        let text = if trimmed {
            trim_str(inputs[i].as_str())
        } else {
            owned(inputs[i].as_str())
        };
        assert(text@ == vs[i as int]);
        match crate::task::parse_uuid_text(text.as_str()) {
            Some(v) => {
                out.push(v);
                assert(out@ =~= id_values_of(vs.take(i + 1)));
            },
            None => {
                assert(first_bad_id(vs, i as int) == Some(i as int));
                return Err(concat2(prefix, text.as_str()));
            },
        }
        i = i + 1;
    }
    assert(vs.take(inputs@.len() as int) =~= vs);
    Ok(out)
}

/// The filter the conditions make, or why they make none.
pub fn assemble_filter(
    states: &Vec<String>,
    labels: &Vec<String>,
    assignees: &Vec<String>,
    parents: &Vec<u128>,
    children: &Vec<u128>,
    kept: &Vec<String>,
    dropped: &Vec<String>,
    text: &Option<String>,
    since: &Option<String>,
    until: &Option<String>,
) -> (r: Result<TaskFilter, String>)
    ensures
        ({
            let c = FilterConditions {
                states: views(states@),
                labels: views(labels@),
                assignees: views(assignees@),
                parents: parents@,
                children: children@,
                kept: views(kept@),
                dropped: views(dropped@),
                text: opt_view(*text),
                since: opt_view(*since),
                until: opt_view(*until),
            };
            match conditions_error(c) {
                Some(e) => r matches Err(m) && m@ == e,
                None => r matches Ok(f) && makes_filter(c, f@),
            }
        }),
{
    proof {
        lemma_first_bad_kind_in(views(kept@), 0);
        lemma_first_bad_kind_in(views(dropped@), 0);
    }
    let included = match read_kind_names(kept) {
        Ok(v) => v,
        Err(e) => return Err(e),
    };
    let excluded = match read_kind_names(dropped) {
        Ok(v) => v,
        Err(e) => return Err(e),
    };
    let since_value = match read_time("updated_since", since) {
        Ok(t) => t,
        Err(e) => return Err(e),
    };
    let until_value = match read_time("updated_until", until) {
        Ok(t) => t,
        Err(e) => return Err(e),
    };
    let updated = if since.is_none() && until.is_none() {
        None
    } else {
        Some(UpdatedFilter { since: since_value, until: until_value })
    };
    Ok(
        TaskFilter {
            states: to_sorted_set(states),
            state_kinds: StateKindFilter {
                included: kinds_in_order(&included),
                excluded: kinds_in_order(&excluded),
            },
            labels: to_sorted_set(labels),
            assignees: to_sorted_set(assignees),
            parents: to_id_set(parents),
            children: to_id_set(children),
            text: read_text(text),
            updated,
        },
    )
}

impl FilterArgs {
    /// The conditions, with the related tasks as the identifiers their
    /// inputs denote.
    pub open spec fn conditions(self) -> FilterConditions {
        FilterConditions {
            states: views(self.states@),
            labels: views(self.labels@),
            assignees: views(self.assignees@),
            parents: id_values_of(views(self.parents@)),
            children: id_values_of(views(self.children@)),
            kept: views(self.include_state_kinds@),
            dropped: views(self.exclude_state_kinds@),
            text: opt_view(self.text),
            since: opt_view(self.updated_since),
            until: opt_view(self.updated_until),
        }
    }
}

/// The filter of the `ls` options: a parent, then a child, that is no task
/// identifier is refused (`Invalid task id: ` and the input), and so are
/// the conditions that make no filter.
pub fn build_filter(args: &FilterArgs) -> (r: Result<TaskFilter, String>)
    ensures
        match first_bad_id(views(args.parents@), 0) {
            Some(k) => r matches Err(m) && m@ == "Invalid task id: "@ + args.parents@[k]@,
            None => match first_bad_id(views(args.children@), 0) {
                Some(k) => r matches Err(m) && m@ == "Invalid task id: "@ + args.children@[k]@,
                None => match conditions_error(args.conditions()) {
                    Some(e) => r matches Err(m) && m@ == e,
                    None => r matches Ok(f) && makes_filter(args.conditions(), f@),
                },
            },
        },
{
    proof {
        lemma_first_bad_id_in(views(args.parents@), 0);
        lemma_first_bad_id_in(views(args.children@), 0);
    }
    let parents = match read_ids(&args.parents, false, "Invalid task id: ") {
        Ok(v) => v,
        Err(e) => return Err(e),
    };
    let children = match read_ids(&args.children, false, "Invalid task id: ") {
        Ok(v) => v,
        Err(e) => return Err(e),
    };
    assemble_filter(
        &args.states,
        &args.labels,
        &args.assignees,
        &parents,
        &children,
        &args.include_state_kinds,
        &args.exclude_state_kinds,
        &args.text,
        &args.updated_since,
        &args.updated_until,
    )
}

/// The identifiers that trimmed inputs denote.
pub open spec fn trimmed_ids(inputs: Seq<String>) -> Seq<u128> {
    id_values_of(id_inputs(views(inputs), true))
}

/// Read the identifiers of related tasks in a request, each trimmed; the
/// first that denotes none is refused with `Invalid <context> id: ` and the
/// trimmed input.
pub fn read_request_ids(inputs: &Vec<String>, context: &str) -> (r: Result<Vec<u128>, String>)
    ensures
        match first_bad_id(id_inputs(views(inputs@), true), 0) {
            Some(k) => r matches Err(m) && m@ == "Invalid "@ + context@ + " id: "@ + trim(
                inputs@[k]@,
            ),
            None => r matches Ok(v) && v@ == trimmed_ids(inputs@),
        },
{
    let mut prefix = concat2("Invalid ", context);
    push_str(&mut prefix, " id: ");
    let r = read_ids(inputs, true, prefix.as_str());
    proof {
        let vs = id_inputs(views(inputs@), true);
        match first_bad_id(vs, 0) {
            Some(k) => {
                lemma_first_bad_id_in(vs, 0);
                assert(vs[k] == trim(inputs@[k]@));
            },
            None => {},
        }
    }
    r
}

} // verus!
