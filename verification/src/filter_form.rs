//! Reading back the filter editor's form: the text the editor starts with
//! for a filter reads back to that filter.
use vstd::prelude::*;

use crate::display::{carries_entries, is_clean_line, is_line_value, lemma_form_line_shape, lemma_list_text, list_text};
use crate::editor::{is_field_name, is_list_entry, lemma_key_value_line, parsed_list};
use crate::event_log::rfc3339_text;
use crate::filter::{
    filter_error, filter_form_lines, filter_entry, filter_result_ok, filter_template, lemma_kind_filter_round_trip,
    no_filter_fields, filter_fields_of, filter_step, is_id_set, kind_editor_value, kind_names, kind_set,
    negated_kind_names, optional_time, optional_time_text, parsed_ids, rfc3339_parsed, FilterFields,
    KindFilterView, TaskFilterView,
};
use crate::sets::{lemma_sorted_set_unique, sort_set, sorted_set};
use crate::task::{hex_value_of, state_kind_name, uuid_text, StateKind};
use crate::text::{is_ws, trim};

verus! {

/// A time the filter form carries: none, or an instant whose RFC 3339 text
/// is a non-empty one-line value that the `time` crate reads back to the
/// instant.
pub open spec fn time_carried(t: Option<i128>) -> bool {
    match t {
        Some(ts) => rfc3339_text(ts) matches Some(x) && x.len() > 0 && is_line_value(x) && rfc3339_parsed(x)
            == Ok::<i128, Seq<char>>(ts),
        None => true,
    }
}

/// A filter that the filter form carries unchanged: its state, label and
/// assignee sets are sorted sets of list entries without line breaks, its
/// task sets ascending, its state kind sets in kind order without
/// repetition, its text (when set) a non-empty one-line value, and its time
/// range (when set) has a bound, each bound carried.
pub open spec fn filter_form_carries(f: TaskFilterView) -> bool {
    &&& carries_entries(f.states) && sorted_set(f.states)
    &&& carries_entries(f.labels) && sorted_set(f.labels)
    &&& carries_entries(f.assignees) && sorted_set(f.assignees)
    &&& is_id_set(f.parents, f.parents)
    &&& is_id_set(f.children, f.children)
    &&& f.include_kinds == kind_set(f.include_kinds)
    &&& f.exclude_kinds == kind_set(f.exclude_kinds)
    &&& match f.text {
        Some(t) => t.len() > 0 && is_line_value(t),
        None => true,
    }
    &&& match f.updated {
        Some((since, until)) => (since is Some || until is Some) && time_carried(since) && time_carried(
            until,
        ),
        None => true,
    }
}

/// A value a form line carries: its own trim, without a line break, and
/// not ending with whitespace.
pub open spec fn is_form_value(v: Seq<char>) -> bool {
    &&& trim(v) == v
    &&& !v.contains('\n')
    &&& v.len() > 0 ==> !is_ws(v.last())
}

/// The canonical text of an identifier is a list entry without a line
/// break.
proof fn lemma_uuid_text_entry(v: u128)
    ensures
        is_list_entry(uuid_text(v)),
        !uuid_text(v).contains('\n'),
{
    crate::task::lemma_hex_digits_value(v as nat, 32);
    let d = crate::task::hex_digits(v as nat, 32);
    let s = uuid_text(v);
    crate::task::lemma_uuid_text_len(v);
    assert forall|k: int| 0 <= k < s.len() implies hex_value_of(#[trigger] s[k]) >= 0 || s[k] == '-' by {
        if k < 8 {
            assert(s[k] == d[k]);
        } else if 8 < k < 13 {
            assert(s[k] == d[k - 1]);
        } else if 13 < k < 18 {
            assert(s[k] == d[k - 2]);
        } else if 18 < k < 23 {
            assert(s[k] == d[k - 3]);
        } else if 23 < k {
            assert(s[k] == d[k - 4]);
        }
    }
    assert forall|k: int| 0 <= k < s.len() implies !is_ws(#[trigger] s[k]) && s[k] != ',' && s[k] != '\n' by {
        assert(hex_value_of(s[k]) >= 0 || s[k] == '-');
    }
    assert(!s.contains(',')) by {
        if s.contains(',') {
            let k = choose|k: int| 0 <= k < s.len() && s[k] == ',';
            assert(!is_ws(s[k]) && s[k] != ',');
        }
    }
    assert(!s.contains('\n')) by {
        if s.contains('\n') {
            let k = choose|k: int| 0 <= k < s.len() && s[k] == '\n';
            assert(s[k] != '\n');
        }
    }
    assert(!is_ws(s[0]) && !is_ws(s[s.len() - 1]));
    crate::text::lemma_trim_fixed(s);
}

/// Canonical identifier texts read back to their identifiers.
proof fn lemma_parsed_uuid_texts(vs: Seq<u128>)
    ensures
        parsed_ids(vs.map_values(|v: u128| uuid_text(v))) == Ok::<Seq<u128>, Seq<char>>(vs),
    decreases vs.len(),
{
    let ts = vs.map_values(|v: u128| uuid_text(v));
    if vs.len() == 0 {
        assert(ts =~= Seq::<Seq<char>>::empty());
        assert(vs =~= Seq::<u128>::empty());
    } else {
        lemma_parsed_uuid_texts(vs.drop_last());
        assert(ts.drop_last() =~= vs.drop_last().map_values(|v: u128| uuid_text(v)));
        assert(parsed_ids(ts.drop_last()) == Ok::<Seq<u128>, Seq<char>>(vs.drop_last()));
        crate::task::lemma_uuid_text_parses(vs.last());
        assert(ts.last() == uuid_text(vs.last()));
        assert(vs.drop_last().push(vs.last()) =~= vs);
    }
}

/// The text of a task set in the form is a form value that reads back to
/// the set.
proof fn lemma_id_list_value(vs: Seq<u128>)
    ensures
        is_form_value(list_text(vs.map_values(|v: u128| uuid_text(v)))),
        parsed_ids(crate::editor::parsed_list(list_text(vs.map_values(|v: u128| uuid_text(v)))))
            == Ok::<Seq<u128>, Seq<char>>(vs),
{
    let ts = vs.map_values(|v: u128| uuid_text(v));
    assert forall|i: int| 0 <= i < ts.len() implies is_list_entry(#[trigger] ts[i]) && !ts[i].contains('\n') by {
        lemma_uuid_text_entry(vs[i]);
    }
    lemma_list_text(ts);
    lemma_parsed_uuid_texts(vs);
}

/// Reading one more line.
proof fn lemma_filter_push(ls: Seq<Seq<char>>, l: Seq<char>)
    ensures
        filter_fields_of(ls.push(l)) == match filter_fields_of(ls) {
            Err(e) => Err(e),
            Ok(st) => filter_step(st, l),
        },
{
    assert(ls.push(l).drop_last() =~= ls);
}

/// A comment line leaves the fields as they are.
proof fn lemma_filter_comment(st: FilterFields, line: Seq<char>)
    requires
        line.len() > 0,
        line[0] == '#',
    ensures
        filter_step(st, line) == Ok::<FilterFields, Seq<char>>(st),
{
    assert(!is_ws('#'));
    crate::text::lemma_trim_keeps_first(line);
}

/// The line `key: value` reads the value of the key.
proof fn lemma_filter_field(st: FilterFields, key: Seq<char>, value: Seq<char>)
    requires
        is_field_name(key),
        trim(value) == value,
    ensures
        filter_step(st, key + ": "@ + value) == filter_entry(st, key, value),
{
    lemma_key_value_line(key, value);
}

/// What each key of the filter form reads.
proof fn lemma_filter_entries(st: FilterFields, v: Seq<char>)
    ensures
        filter_entry(st, "states"@, v) == Ok::<FilterFields, Seq<char>>(
            FilterFields { states: parsed_list(v), ..st },
        ),
        filter_entry(st, "state_kinds"@, v) == Ok::<FilterFields, Seq<char>>(
            FilterFields { state_kinds: Some(v), ..st },
        ),
        filter_entry(st, "labels"@, v) == Ok::<FilterFields, Seq<char>>(
            FilterFields { labels: parsed_list(v), ..st },
        ),
        filter_entry(st, "assignees"@, v) == Ok::<FilterFields, Seq<char>>(
            FilterFields { assignees: parsed_list(v), ..st },
        ),
        parsed_ids(parsed_list(v)) matches Ok(ids) ==> filter_entry(st, "parents"@, v) == Ok::<
            FilterFields,
            Seq<char>,
        >(FilterFields { parents: ids, ..st }),
        parsed_ids(parsed_list(v)) matches Ok(ids) ==> filter_entry(st, "children"@, v) == Ok::<
            FilterFields,
            Seq<char>,
        >(FilterFields { children: ids, ..st }),
        filter_entry(st, "text"@, v) == Ok::<FilterFields, Seq<char>>(
            FilterFields {
                text: if v.len() == 0 {
                    None
                } else {
                    Some(v)
                },
                ..st
            },
        ),
        optional_time(v) matches Ok(t) ==> filter_entry(st, "updated_since"@, v) == Ok::<
            FilterFields,
            Seq<char>,
        >(FilterFields { since: t, ..st }),
        optional_time(v) matches Ok(t) ==> filter_entry(st, "updated_until"@, v) == Ok::<
            FilterFields,
            Seq<char>,
        >(FilterFields { until: t, ..st }),
{
    reveal_strlit("states");
    reveal_strlit("state_kinds");
    reveal_strlit("labels");
    reveal_strlit("assignees");
    reveal_strlit("parents");
    reveal_strlit("children");
    reveal_strlit("text");
    reveal_strlit("updated_since");
    reveal_strlit("updated_until");
    assert("states"@[1] != "labels"@[1]);
    assert("state_kinds"@.len() != "states"@.len());
    assert("assignees"@.len() != "states"@.len() && "assignees"@.len() != "labels"@.len());
    assert("parents"@.len() != "states"@.len() && "parents"@.len() != "assignees"@.len());
    assert("parents"@[0] != "labels"@[0]);
    assert("children"@.len() != "states"@.len() && "children"@.len() != "labels"@.len()
        && "children"@.len() != "assignees"@.len() && "children"@.len() != "parents"@.len());
    assert("text"@.len() != "states"@.len() && "text"@.len() != "labels"@.len() && "text"@.len()
        != "assignees"@.len() && "text"@.len() != "parents"@.len() && "text"@.len() != "children"@.len());
    assert("updated_since"@.len() != "states"@.len() && "updated_since"@.len() != "labels"@.len()
        && "updated_since"@.len() != "assignees"@.len() && "updated_since"@.len() != "parents"@.len()
        && "updated_since"@.len() != "children"@.len() && "updated_since"@.len() != "text"@.len());
    assert("updated_until"@[8] != "updated_since"@[8]);
    assert("updated_until"@.len() != "states"@.len() && "updated_until"@.len() != "labels"@.len()
        && "updated_until"@.len() != "assignees"@.len() && "updated_until"@.len() != "parents"@.len()
        && "updated_until"@.len() != "children"@.len() && "updated_until"@.len() != "text"@.len());
    assert("state_kinds"@.len() != "labels"@.len() && "state_kinds"@.len() != "assignees"@.len()
        && "state_kinds"@.len() != "parents"@.len() && "state_kinds"@.len() != "children"@.len()
        && "state_kinds"@.len() != "text"@.len() && "state_kinds"@.len() != "updated_since"@.len());
}

/// The comment lines of the filter form start with `#`, hold no line break
/// and end with no carriage return; its keys are field names without line
/// breaks, each written before `: `.
proof fn lemma_filter_form_literals(f: TaskFilterView)
    ensures
        forall|i: int|
            0 <= i < 5 ==> (#[trigger] filter_form_lines(f)[i]).len() > 0 && filter_form_lines(f)[i][0] == '#'
                && is_clean_line(filter_form_lines(f)[i]),
        ({
            let keys = seq![
                "states"@,
                "state_kinds"@,
                "labels"@,
                "assignees"@,
                "parents"@,
                "children"@,
                "text"@,
                "updated_since"@,
                "updated_until"@,
            ];
            forall|i: int| 0 <= i < 9 ==> is_field_name(#[trigger] keys[i]) && !keys[i].contains('\n')
        }),
        "states: "@ == "states"@ + ": "@,
        "state_kinds: "@ == "state_kinds"@ + ": "@,
        "labels: "@ == "labels"@ + ": "@,
        "assignees: "@ == "assignees"@ + ": "@,
        "parents: "@ == "parents"@ + ": "@,
        "children: "@ == "children"@ + ": "@,
        "text: "@ == "text"@ + ": "@,
        "updated_since: "@ == "updated_since"@ + ": "@,
        "updated_until: "@ == "updated_until"@ + ": "@,
{
    reveal_strlit("# フィルタを編集します。空欄のフィールドは該当条件なしとして扱われます。");
    reveal_strlit("# states/labels/assignees/parents/children はカンマ区切りで入力してください。");
    reveal_strlit("# updated_since / updated_until は RFC3339 (例: 2025-01-01T09:00:00+09:00) 形式。");
    reveal_strlit("# state_kinds には done/in_progress などの kind を指定し、!done で除外できます。");
    reveal_strlit("# state_kinds の候補: ");
    reveal_strlit("done, in_progress, blocked, todo, backlog");
    reveal_strlit(": ");
    reveal_strlit("states");
    reveal_strlit("state_kinds");
    reveal_strlit("labels");
    reveal_strlit("assignees");
    reveal_strlit("parents");
    reveal_strlit("children");
    reveal_strlit("text");
    reveal_strlit("updated_since");
    reveal_strlit("updated_until");
    reveal_strlit("states: ");
    reveal_strlit("state_kinds: ");
    reveal_strlit("labels: ");
    reveal_strlit("assignees: ");
    reveal_strlit("parents: ");
    reveal_strlit("children: ");
    reveal_strlit("text: ");
    reveal_strlit("updated_since: ");
    reveal_strlit("updated_until: ");
    let cs = seq![
        "# フィルタを編集します。空欄のフィールドは該当条件なしとして扱われます。"@,
        "# states/labels/assignees/parents/children はカンマ区切りで入力してください。"@,
        "# updated_since / updated_until は RFC3339 (例: 2025-01-01T09:00:00+09:00) 形式。"@,
        "# state_kinds には done/in_progress などの kind を指定し、!done で除外できます。"@,
        "# state_kinds の候補: "@ + "done, in_progress, blocked, todo, backlog"@,
    ];
    let ls = filter_form_lines(f);
    assert(ls[0] == cs[0] && ls[1] == cs[1] && ls[2] == cs[2] && ls[3] == cs[3] && ls[4] == cs[4]);
    assert forall|i: int| 0 <= i < 5 implies (#[trigger] ls[i]).len() > 0 && ls[i][0] == '#' && is_clean_line(
        ls[i],
    ) by {
        let c = cs[i];
        assert(ls[i] == c);
        assert(!c.contains('\n')) by {
            if c.contains('\n') {
                let k = choose|k: int| 0 <= k < c.len() && c[k] == '\n';
            }
        }
    }
    let keys = seq![
        "states"@,
        "state_kinds"@,
        "labels"@,
        "assignees"@,
        "parents"@,
        "children"@,
        "text"@,
        "updated_since"@,
        "updated_until"@,
    ];
    assert forall|i: int| 0 <= i < 9 implies is_field_name(#[trigger] keys[i]) && !keys[i].contains('\n') by {
        let n = keys[i];
        crate::text::lemma_trim_fixed(n);
        assert(!n.contains(':')) by {
            if n.contains(':') {
                let k = choose|k: int| 0 <= k < n.len() && n[k] == ':';
            }
        }
        assert(!n.contains('\n')) by {
            if n.contains('\n') {
                let k = choose|k: int| 0 <= k < n.len() && n[k] == '\n';
            }
        }
    }
    assert("states: "@ =~= "states"@ + ": "@);
    assert("state_kinds: "@ =~= "state_kinds"@ + ": "@);
    assert("labels: "@ =~= "labels"@ + ": "@);
    assert("assignees: "@ =~= "assignees"@ + ": "@);
    assert("parents: "@ =~= "parents"@ + ": "@);
    assert("children: "@ =~= "children"@ + ": "@);
    assert("text: "@ =~= "text"@ + ": "@);
    assert("updated_since: "@ =~= "updated_since"@ + ": "@);
    assert("updated_until: "@ =~= "updated_until"@ + ": "@);
}

/// The names of the state kinds hold no line break.
proof fn lemma_kind_name_no_break(k: StateKind)
    ensures
        !state_kind_name(k).contains('\n'),
        !("!"@ + state_kind_name(k)).contains('\n'),
{
    reveal_strlit("!");
    reveal_strlit("todo");
    reveal_strlit("in_progress");
    reveal_strlit("blocked");
    reveal_strlit("done");
    reveal_strlit("backlog");
    let name = state_kind_name(k);
    let neg = "!"@ + name;
    assert(!name.contains('\n')) by {
        if name.contains('\n') {
            let i = choose|i: int| 0 <= i < name.len() && name[i] == '\n';
        }
    }
    assert(!neg.contains('\n')) by {
        if neg.contains('\n') {
            let i = choose|i: int| 0 <= i < neg.len() && neg[i] == '\n';
            if i > 0 {
                assert(name[i - 1] == '\n');
            }
        }
    }
}

/// The `state_kinds` value of a kind filter is a form value.
proof fn lemma_kind_value(kv: KindFilterView)
    ensures
        is_form_value(kind_editor_value(kv)),
{
    let names = kind_names(kv.included) + negated_kind_names(kv.excluded);
    assert forall|i: int| 0 <= i < names.len() implies is_list_entry(#[trigger] names[i]) && !names[i].contains(
        '\n',
    ) by {
        if i < kv.included.len() {
            let k = kv.included[i];
            crate::editor::lemma_kind_name_reads_back(k);
            lemma_kind_name_no_break(k);
            assert(names[i] == state_kind_name(k));
        } else {
            let k = kv.excluded[i - kv.included.len()];
            crate::editor::lemma_kind_name_reads_back(k);
            lemma_kind_name_no_break(k);
            assert(names[i] == "!"@ + state_kind_name(k));
        }
    }
    lemma_list_text(names);
}

/// The text field value of a filter.
pub open spec fn text_value(t: Option<Seq<char>>) -> Seq<char> {
    match t {
        Some(v) => v,
        None => Seq::<char>::empty(),
    }
}

/// The bounds of a filter's time range.
pub open spec fn range_bounds(f: TaskFilterView) -> (Option<i128>, Option<i128>) {
    match f.updated {
        Some(u) => u,
        None => (None, None),
    }
}

/// A carried time bound's value is a form value that reads back to it.
proof fn lemma_time_value(t: Option<i128>)
    requires
        time_carried(t),
    ensures
        is_form_value(optional_time_text(t)),
        optional_time(optional_time_text(t)) == Ok::<Option<i128>, Seq<char>>(t),
{
    match t {
        Some(ts) => {
            let x = rfc3339_text(ts)->0;
            assert(optional_time_text(t) == x);
            crate::text::lemma_trimmed_ends(x);
        },
        None => {
            assert(trim(Seq::<char>::empty()) =~= Seq::<char>::empty());
            assert(!Seq::<char>::empty().contains('\n'));
        },
    }
}

/// The keys of the filter form, in the order of its lines.
pub open spec fn filter_keys() -> Seq<Seq<char>> {
    seq![
        "states"@,
        "state_kinds"@,
        "labels"@,
        "assignees"@,
        "parents"@,
        "children"@,
        "text"@,
        "updated_since"@,
        "updated_until"@,
    ]
}

/// The values of the filter form's fields for a filter, in the order of
/// its lines.
pub open spec fn filter_values(f: TaskFilterView) -> Seq<Seq<char>> {
    let (since, until) = range_bounds(f);
    seq![
        list_text(f.states),
        kind_editor_value(KindFilterView { included: f.include_kinds, excluded: f.exclude_kinds }),
        list_text(f.labels),
        list_text(f.assignees),
        list_text(f.parents.map_values(|v: u128| uuid_text(v))),
        list_text(f.children.map_values(|v: u128| uuid_text(v))),
        text_value(f.text),
        optional_time_text(since),
        optional_time_text(until),
    ]
}

/// The field lines of the filter form are its keys and values, and every
/// value is a form value.
proof fn lemma_filter_form_fields(f: TaskFilterView)
    requires
        filter_form_carries(f),
    ensures
        forall|i: int| 0 <= i < 9 ==> is_form_value(#[trigger] filter_values(f)[i]),
        forall|i: int|
            5 <= i < 14 ==> #[trigger] filter_form_lines(f)[i] == filter_keys()[i - 5] + ": "@ + filter_values(
                f,
            )[i - 5],
{
    lemma_filter_form_literals(f);
    let (since, until) = range_bounds(f);
    let vs = filter_values(f);
    lemma_list_text(f.states);
    lemma_list_text(f.labels);
    lemma_list_text(f.assignees);
    lemma_kind_value(KindFilterView { included: f.include_kinds, excluded: f.exclude_kinds });
    lemma_id_list_value(f.parents);
    lemma_id_list_value(f.children);
    if f.updated is Some {
        lemma_time_value(since);
        lemma_time_value(until);
    } else {
        lemma_time_value(None);
    }
    match f.text {
        Some(t) => crate::text::lemma_trimmed_ends(t),
        None => {
            assert(trim(Seq::<char>::empty()) =~= Seq::<char>::empty());
            assert(!Seq::<char>::empty().contains('\n'));
        },
    }
    assert forall|i: int| 0 <= i < 9 implies is_form_value(#[trigger] vs[i]) by {}
    let ls = filter_form_lines(f);
    let ks = filter_keys();
    assert(ls[5] == ks[0] + ": "@ + vs[0]);
    assert(ls[6] == ks[1] + ": "@ + vs[1]);
    assert(ls[7] == ks[2] + ": "@ + vs[2]);
    assert(ls[8] == ks[3] + ": "@ + vs[3]);
    assert(ls[9] == ks[4] + ": "@ + vs[4]);
    assert(ls[10] == ks[5] + ": "@ + vs[5]);
    assert(ls[11] == ks[6] + ": "@ + vs[6]);
    assert(ls[12] == ks[7] + ": "@ + vs[7]);
    assert(ls[13] == ks[8] + ": "@ + vs[8]);
}

/// The lines of the filter form's text are its lines but the last, empty
/// one.
proof fn lemma_filter_form_lines_of(f: TaskFilterView)
    requires
        filter_form_carries(f),
    ensures
        crate::text::lines(crate::filter::filter_template(f)) == filter_form_lines(f).drop_last(),
{
    lemma_filter_form_literals(f);
    lemma_filter_form_fields(f);
    let ls = filter_form_lines(f);
    let ks = filter_keys();
    let vs = filter_values(f);
    assert forall|i: int| 0 <= i < 15 implies is_clean_line(#[trigger] ls[i]) by {
        if 5 <= i < 14 {
            assert(is_field_name(ks[i - 5]) && !ks[i - 5].contains('\n'));
            assert(is_form_value(vs[i - 5]));
            lemma_form_line_shape(ks[i - 5], vs[i - 5]);
        } else if i == 14 {
            assert(!Seq::<char>::empty().contains('\n'));
        }
    }
    assert forall|i: int, k: int| 0 <= i < ls.len() && 0 <= k < ls[i].len() implies #[trigger] ls[i][k]
        != '\n' by {
        assert(is_clean_line(ls[i]));
        if ls[i][k] == '\n' {
            assert(ls[i].contains('\n'));
        }
    }
    assert forall|i: int| 0 <= i < ls.len() && (#[trigger] ls[i]).len() > 0 implies ls[i].last() != '\r' by {
        assert(is_clean_line(ls[i]));
    }
    crate::text::lemma_lines_of_joined(ls);
}

/// What the filter form of a filter reads.
pub open spec fn filter_form_fields(f: TaskFilterView) -> FilterFields {
    let (since, until) = range_bounds(f);
    FilterFields {
        states: f.states,
        labels: f.labels,
        assignees: f.assignees,
        parents: f.parents,
        children: f.children,
        text: f.text,
        since,
        until,
        state_kinds: Some(filter_values(f)[1]),
    }
}


/// Reading a comment line after lines that read some fields.
proof fn lemma_read_comment(p: Seq<Seq<char>>, st: FilterFields, line: Seq<char>)
    requires
        filter_fields_of(p) == Ok::<FilterFields, Seq<char>>(st),
        line.len() > 0,
        line[0] == '#',
    ensures
        filter_fields_of(p.push(line)) == Ok::<FilterFields, Seq<char>>(st),
{
    lemma_filter_push(p, line);
    lemma_filter_comment(st, line);
}

/// Reading a field line after lines that read some fields.
proof fn lemma_read_field(p: Seq<Seq<char>>, st: FilterFields, key: Seq<char>, value: Seq<char>)
    requires
        filter_fields_of(p) == Ok::<FilterFields, Seq<char>>(st),
        is_field_name(key),
        trim(value) == value,
    ensures
        filter_fields_of(p.push(key + ": "@ + value)) == filter_entry(st, key, value),
{
    lemma_filter_push(p, key + ": "@ + value);
    lemma_filter_field(st, key, value);
}

/// Reading the filter form's lines gives the filter's fields.
#[verifier::spinoff_prover]
#[verifier::rlimit(40)]
proof fn lemma_filter_form_reads(f: TaskFilterView)
    requires
        filter_form_carries(f),
    ensures
        filter_fields_of(filter_form_lines(f).drop_last()) == Ok::<FilterFields, Seq<char>>(
            filter_form_fields(f),
        ),
{
    lemma_filter_form_literals(f);
    lemma_filter_form_fields(f);
    let l = filter_form_lines(f).drop_last();
    let ks = filter_keys();
    let vs = filter_values(f);
    let (since, until) = range_bounds(f);
    assert(filter_fields_of(l.take(0)) == Ok::<FilterFields, Seq<char>>(no_filter_fields())) by {
        assert(l.take(0) =~= Seq::<Seq<char>>::empty());
    }
    assert forall|i: int| 0 <= i < 9 implies is_field_name(#[trigger] ks[i]) by {}
    lemma_list_text(f.states);
    lemma_list_text(f.labels);
    lemma_list_text(f.assignees);
    lemma_id_list_value(f.parents);
    lemma_id_list_value(f.children);
    if f.updated is Some {
        lemma_time_value(since);
        lemma_time_value(until);
    } else {
        lemma_time_value(None);
    }
    lemma_read_comment(l.take(0), no_filter_fields(), l[0]);
    assert(l.take(0).push(l[0]) =~= l.take(1));
    lemma_read_comment(l.take(1), no_filter_fields(), l[1]);
    assert(l.take(1).push(l[1]) =~= l.take(2));
    lemma_read_comment(l.take(2), no_filter_fields(), l[2]);
    assert(l.take(2).push(l[2]) =~= l.take(3));
    lemma_read_comment(l.take(3), no_filter_fields(), l[3]);
    assert(l.take(3).push(l[3]) =~= l.take(4));
    lemma_read_comment(l.take(4), no_filter_fields(), l[4]);
    assert(l.take(4).push(l[4]) =~= l.take(5));
    let st1 = FilterFields { states: parsed_list(vs[0]), ..no_filter_fields() };
    lemma_read_field(l.take(5), no_filter_fields(), ks[0], vs[0]);
    assert(l.take(5).push(l[5]) =~= l.take(6));
    lemma_filter_entries(no_filter_fields(), vs[0]);
    assert(filter_entry(no_filter_fields(), ks[0], vs[0]) == Ok::<FilterFields, Seq<char>>(st1));
    let st2 = FilterFields { state_kinds: Some(vs[1]), ..st1 };
    lemma_read_field(l.take(6), st1, ks[1], vs[1]);
    assert(l.take(6).push(l[6]) =~= l.take(7));
    lemma_filter_entries(st1, vs[1]);
    assert(filter_entry(st1, ks[1], vs[1]) == Ok::<FilterFields, Seq<char>>(st2));
    let st3 = FilterFields { labels: parsed_list(vs[2]), ..st2 };
    lemma_read_field(l.take(7), st2, ks[2], vs[2]);
    assert(l.take(7).push(l[7]) =~= l.take(8));
    lemma_filter_entries(st2, vs[2]);
    assert(filter_entry(st2, ks[2], vs[2]) == Ok::<FilterFields, Seq<char>>(st3));
    let st4 = FilterFields { assignees: parsed_list(vs[3]), ..st3 };
    lemma_read_field(l.take(8), st3, ks[3], vs[3]);
    assert(l.take(8).push(l[8]) =~= l.take(9));
    lemma_filter_entries(st3, vs[3]);
    assert(filter_entry(st3, ks[3], vs[3]) == Ok::<FilterFields, Seq<char>>(st4));
    let st5 = FilterFields { parents: f.parents, ..st4 };
    lemma_read_field(l.take(9), st4, ks[4], vs[4]);
    assert(l.take(9).push(l[9]) =~= l.take(10));
    lemma_filter_entries(st4, vs[4]);
    assert(filter_entry(st4, ks[4], vs[4]) == Ok::<FilterFields, Seq<char>>(st5));
    let st6 = FilterFields { children: f.children, ..st5 };
    lemma_read_field(l.take(10), st5, ks[5], vs[5]);
    assert(l.take(10).push(l[10]) =~= l.take(11));
    lemma_filter_entries(st5, vs[5]);
    assert(filter_entry(st5, ks[5], vs[5]) == Ok::<FilterFields, Seq<char>>(st6));
    let st7 = FilterFields { text: if vs[6].len() == 0 { None } else { Some(vs[6]) }, ..st6 };
    lemma_read_field(l.take(11), st6, ks[6], vs[6]);
    assert(l.take(11).push(l[11]) =~= l.take(12));
    lemma_filter_entries(st6, vs[6]);
    assert(filter_entry(st6, ks[6], vs[6]) == Ok::<FilterFields, Seq<char>>(st7));
    let st8 = FilterFields { since: since, ..st7 };
    lemma_read_field(l.take(12), st7, ks[7], vs[7]);
    assert(l.take(12).push(l[12]) =~= l.take(13));
    lemma_filter_entries(st7, vs[7]);
    assert(filter_entry(st7, ks[7], vs[7]) == Ok::<FilterFields, Seq<char>>(st8));
    let st9 = FilterFields { until: until, ..st8 };
    lemma_read_field(l.take(13), st8, ks[8], vs[8]);
    assert(l.take(13).push(l[13]) =~= l.take(14));
    lemma_filter_entries(st8, vs[8]);
    assert(filter_entry(st8, ks[8], vs[8]) == Ok::<FilterFields, Seq<char>>(st9));
    assert(l.take(14) =~= l);
}


/// Saving the filter editor's text unchanged gives back the filter it was
/// opened with: the text that the editor starts with for a filter that the
/// form carries reads back, without error, to that filter.
pub proof fn lemma_filter_form_round_trip(f: TaskFilterView)
    requires
        filter_form_carries(f),
    ensures
        filter_result_ok(filter_template(f), f),
        filter_error(filter_template(f)) is None,
        forall|g: TaskFilterView| filter_result_ok(filter_template(f), g) ==> g == f,
{
    lemma_filter_form_lines_of(f);
    lemma_filter_form_reads(f);
    let kv = KindFilterView { included: f.include_kinds, excluded: f.exclude_kinds };
    lemma_kind_filter_round_trip(kv);
    crate::task_patch::lemma_sort_set_props(f.states);
    crate::task_patch::lemma_sort_set_props(f.labels);
    crate::task_patch::lemma_sort_set_props(f.assignees);
    lemma_sorted_set_unique(sort_set(f.states), f.states);
    lemma_sorted_set_unique(sort_set(f.labels), f.labels);
    lemma_sorted_set_unique(sort_set(f.assignees), f.assignees);
    assert forall|g: TaskFilterView| filter_result_ok(filter_template(f), g) implies g == f by {
        lemma_filter_result_unique(filter_template(f), f, g);
    }
}


/// Two ascending sequences of identifiers with the same elements are equal.
proof fn lemma_ascending_unique(a: Seq<u128>, b: Seq<u128>)
    requires
        forall|i: int, j: int| 0 <= i < j < a.len() ==> a[i] < a[j],
        forall|i: int, j: int| 0 <= i < j < b.len() ==> b[i] < b[j],
        forall|x: u128| a.contains(x) <==> b.contains(x),
    ensures
        a == b,
    decreases a.len() + b.len(),
{
    if a.len() == 0 {
        if b.len() > 0 {
            assert(b.contains(b[0]));
        }
        assert(a =~= b);
    } else if b.len() == 0 {
        assert(a.contains(a[0]));
    } else {
        let x = a.last();
        let y = b.last();
        assert(a.contains(x));
        let j = choose|j: int| 0 <= j < b.len() && b[j] == x;
        assert(x <= y) by {
            if j < b.len() - 1 {
                assert(b[j] < b[b.len() - 1]);
            }
        }
        assert(b.contains(y));
        let i = choose|i: int| 0 <= i < a.len() && a[i] == y;
        assert(y <= x) by {
            if i < a.len() - 1 {
                assert(a[i] < a[a.len() - 1]);
            }
        }
        let a2 = a.drop_last();
        let b2 = b.drop_last();
        assert forall|z: u128| a2.contains(z) <==> b2.contains(z) by {
            if a2.contains(z) {
                let k = choose|k: int| 0 <= k < a2.len() && a2[k] == z;
                assert(a[k] < a[a.len() - 1]);
                assert(a.contains(z));
                let m = choose|m: int| 0 <= m < b.len() && b[m] == z;
                if m == b.len() - 1 {
                    assert(z == y);
                }
                assert(b2[m] == z);
            }
            if b2.contains(z) {
                let k = choose|k: int| 0 <= k < b2.len() && b2[k] == z;
                assert(b[k] < b[b.len() - 1]);
                assert(b.contains(z));
                let m = choose|m: int| 0 <= m < a.len() && a[m] == z;
                if m == a.len() - 1 {
                    assert(z == x);
                }
                assert(a2[m] == z);
            }
        }
        lemma_ascending_unique(a2, b2);
        assert(a =~= a2.push(x));
        assert(b =~= b2.push(y));
    }
}

/// A filter editor text reads to at most one filter.
pub proof fn lemma_filter_result_unique(raw: Seq<char>, a: TaskFilterView, b: TaskFilterView)
    requires
        filter_result_ok(raw, a),
        filter_result_ok(raw, b),
    ensures
        a == b,
{
    lemma_ascending_unique(a.parents, b.parents);
    lemma_ascending_unique(a.children, b.children);
}

} // verus!
