//! Reading what the user wrote in the external editor: comments, new or
//! edited tasks, comma-separated lists and state kind names.
use vstd::prelude::*;

use crate::task::{StateKind, TaskId};
use crate::text::{
    chars_eq, chars_of, cviews, drop_empty, drop_empty_chars, find_char, find_char_index, is_ws,
    join, join_chars, lines, lines_chars, slice_chars, split_chars, split_on, strings_from_chars,
    trim, trim_all, trim_chars, trim_end, trim_end_chars, trim_start, trim_start_chars, views,
};

verus! {

/// Input collected from the new task form.
#[derive(Debug)]
pub struct NewTaskData {
    pub title: String,
    pub state: Option<String>,
    pub labels: Vec<String>,
    pub assignees: Vec<String>,
    pub description: Option<String>,
    pub parent: Option<TaskId>,
}

/// The view of a [`NewTaskData`].
pub struct NewTaskView {
    pub title: Seq<char>,
    pub state: Option<Seq<char>>,
    pub labels: Seq<Seq<char>>,
    pub assignees: Seq<Seq<char>>,
    pub description: Option<Seq<char>>,
    pub parent: Option<TaskId>,
}

impl View for NewTaskData {
    type V = NewTaskView;

    open spec fn view(&self) -> NewTaskView {
        NewTaskView {
            title: self.title@,
            state: match self.state {
                Some(s) => Some(s@),
                None => None,
            },
            labels: views(self.labels@),
            assignees: views(self.assignees@),
            description: match self.description {
                Some(s) => Some(s@),
                None => None,
            },
            parent: self.parent,
        }
    }
}

// ---------------------------------------------------------------------------
// Lists
// ---------------------------------------------------------------------------

/// The entries of a comma-separated list: trimmed, empty ones dropped.
pub open spec fn parsed_list(s: Seq<char>) -> Seq<Seq<char>> {
    drop_empty(trim_all(split_on(s, ',')))
}

/// An entry that a comma-separated list carries unchanged: non-empty,
/// trimmed, and free of commas.
pub open spec fn is_list_entry(p: Seq<char>) -> bool {
    &&& p.len() > 0
    &&& trim(p) == p
    &&& !p.contains(',')
}

/// Writing entries as a list separated by `, ` and reading the list back
/// gives the same entries, when each can be carried unchanged.
pub proof fn lemma_parse_joined_list(parts: Seq<Seq<char>>)
    requires
        forall|i: int| 0 <= i < parts.len() ==> is_list_entry(#[trigger] parts[i]),
    ensures
        parsed_list(join(parts, ", "@)) == parts,
{
    reveal_strlit(", ");
    reveal_strlit(" ");
    if parts.len() == 0 {
        assert(trim_all(split_on(Seq::<char>::empty(), ',')) =~= seq![Seq::<char>::empty()]);
        let one = seq![Seq::<char>::empty()];
        assert(one.drop_last() =~= Seq::<Seq<char>>::empty());
        assert(one.last().len() == 0);
        assert(drop_empty(one.drop_last()) == one.drop_last());
        assert(drop_empty(one) == drop_empty(one.drop_last()));
        assert(drop_empty(one) =~= Seq::<Seq<char>>::empty());
    } else {
        let is_sep = crate::text::eq_pred(',');
        assert(", "@ =~= seq![','] + " "@);
        assert forall|i: int, k: int| 0 <= i < parts.len() && 0 <= k < parts[i].len() implies !is_sep(
            #[trigger] parts[i][k],
        ) by {
            assert(is_list_entry(parts[i]));
            if parts[i][k] == ',' {
                assert(parts[i].contains(','));
            }
        }
        crate::text::lemma_split_join(parts, ',', " "@, is_sep);
        let pieces = crate::text::joined_pieces(parts, " "@);
        assert forall|i: int| 0 <= i < parts.len() implies trim(#[trigger] pieces[i]) == parts[i] by {
            assert(is_list_entry(parts[i]));
            if i > 0 {
                crate::text::lemma_trim_after_blank(parts[i]);
            }
        }
        assert(trim_all(pieces) =~= parts);
        crate::text::lemma_drop_empty_none(parts);
    }
}

/// The entries of a comma-separated list, trimmed, without empty ones.
pub fn parse_list(input: &str) -> (r: Vec<String>)
    ensures
        views(r@) == parsed_list(input@),
{
    let chars = chars_of(input);
    let r = parse_list_chars(&chars);
    strings_from_chars(&r)
}

/// The entries of a comma-separated list of characters.
pub fn parse_list_chars(input: &Vec<char>) -> (r: Vec<Vec<char>>)
    ensures
        cviews(r@) == parsed_list(input@),
{
    let pieces = split_chars(input, ',');
    let mut trimmed: Vec<Vec<char>> = Vec::new();
    for i in 0..pieces.len()
        invariant
            cviews(trimmed@) == trim_all(cviews(pieces@).take(i as int)),
    {
        let t = trim_chars(&pieces[i]);
        let ghost before = cviews(trimmed@);
        trimmed.push(t);
        assert(cviews(trimmed@) =~= before.push(t@));
        assert(trim_all(cviews(pieces@).take(i + 1)) =~= trim_all(cviews(pieces@).take(i as int)).push(
            trim(pieces@[i as int]@),
        ));
    }
    assert(cviews(pieces@).take(pieces.len() as int) =~= cviews(pieces@));
    drop_empty_chars(&trimmed)
}

/// Entries that start with `!` (without it), in order.
pub open spec fn excluded_tokens(tokens: Seq<Seq<char>>) -> Seq<Seq<char>>
    decreases tokens.len(),
{
    if tokens.len() == 0 {
        tokens
    } else if tokens.last().len() > 0 && tokens.last()[0] == '!' {
        excluded_tokens(tokens.drop_last()).push(tokens.last().drop_first())
    } else {
        excluded_tokens(tokens.drop_last())
    }
}

/// Entries that do not start with `!`, in order.
pub open spec fn included_tokens(tokens: Seq<Seq<char>>) -> Seq<Seq<char>>
    decreases tokens.len(),
{
    if tokens.len() == 0 {
        tokens
    } else if tokens.last().len() > 0 && tokens.last()[0] == '!' {
        included_tokens(tokens.drop_last())
    } else {
        included_tokens(tokens.drop_last()).push(tokens.last())
    }
}

/// Splits a list of state kinds into included kinds and (`!`-prefixed)
/// excluded kinds.
pub fn split_state_kind_tokens(input: &str) -> (r: (Vec<String>, Vec<String>))
    ensures
        views(r.0@) == included_tokens(parsed_list(input@)),
        views(r.1@) == excluded_tokens(parsed_list(input@)),
{
    let chars = chars_of(input);
    let tokens = parse_list_chars(&chars);
    let ghost tv = cviews(tokens@);
    let mut included: Vec<Vec<char>> = Vec::new();
    let mut excluded: Vec<Vec<char>> = Vec::new();
    for i in 0..tokens.len()
        invariant
            tv == cviews(tokens@),
            cviews(included@) == included_tokens(tv.take(i as int)),
            cviews(excluded@) == excluded_tokens(tv.take(i as int)),
    {
        assert(tv.take(i + 1).drop_last() =~= tv.take(i as int));
        assert(tv.take(i + 1).last() == tokens@[i as int]@);
        let t = &tokens[i];
        if t.len() > 0 && t[0] == '!' {
            let rest = slice_chars(t, 1, t.len());
            assert(rest@ =~= t@.drop_first());
            let ghost before = cviews(excluded@);
            excluded.push(rest);
            assert(cviews(excluded@) =~= before.push(rest@));
        } else {
            let copy = slice_chars(t, 0, t.len());
            assert(copy@ =~= t@);
            let ghost before = cviews(included@);
            included.push(copy);
            assert(cviews(included@) =~= before.push(copy@));
        }
    }
    assert(tv.take(tokens.len() as int) =~= tv);
    (strings_from_chars(&included), strings_from_chars(&excluded))
}

/// Free text of a filter: trimmed, and none when nothing is left.
pub fn normalize_text(input: Option<String>) -> (r: Option<String>)
    ensures
        match input {
            None => r is None,
            Some(s) => if trim(s@).len() == 0 {
                r is None
            } else {
                r matches Some(t) && t@ == trim(s@)
            },
        },
{
    match input {
        None => None,
        Some(candidate) => {
            let chars = chars_of(candidate.as_str());
            let t = trim_chars(&chars);
            if t.len() == 0 {
                None
            } else {
                Some(crate::text::string_from_chars(&t))
            }
        },
    }
}

// ---------------------------------------------------------------------------
// State kinds
// ---------------------------------------------------------------------------

/// ASCII lowercase of a character.
pub open spec fn ascii_lower(c: char) -> char {
    if 'A' <= c <= 'Z' {
        (((c as u32) + 32) as u8) as char
    } else {
        c
    }
}

/// A state kind name normalized for matching: trimmed, ASCII-lowercased,
/// with `-` and spaces turned into `_`.
pub open spec fn normalized_kind_name(s: Seq<char>) -> Seq<char> {
    trim(s).map_values(|c: char| if c == '-' || c == ' ' { '_' } else { ascii_lower(c) })
}

/// The state kind a name denotes.
pub open spec fn kind_by_name(s: Seq<char>) -> Option<StateKind> {
    let n = normalized_kind_name(s);
    if n == "done"@ {
        Some(StateKind::Done)
    } else if n == "in_progress"@ {
        Some(StateKind::InProgress)
    } else if n == "blocked"@ {
        Some(StateKind::Blocked)
    } else if n == "todo"@ {
        Some(StateKind::Todo)
    } else if n == "backlog"@ {
        Some(StateKind::Backlog)
    } else {
        None
    }
}

/// A kind's own name, and that name after `!`, are list entries, and the
/// name reads back as the kind.
pub proof fn lemma_kind_name_reads_back(k: StateKind)
    ensures
        kind_by_name(crate::task::state_kind_name(k)) == Some(k),
        is_list_entry(crate::task::state_kind_name(k)),
        is_list_entry("!"@ + crate::task::state_kind_name(k)),
        crate::task::state_kind_name(k)[0] != '!',
        ("!"@ + crate::task::state_kind_name(k))[0] == '!',
        ("!"@ + crate::task::state_kind_name(k)).drop_first() == crate::task::state_kind_name(k),
{
    reveal_strlit("!");
    reveal_strlit("todo");
    reveal_strlit("in_progress");
    reveal_strlit("blocked");
    reveal_strlit("done");
    reveal_strlit("backlog");
    let name = crate::task::state_kind_name(k);
    let neg = "!"@ + name;
    assert(neg.drop_first() =~= name);
    assert(neg[0] == '!');
    assert(name.len() > 0 && !is_ws(name[0]) && !is_ws(name[name.len() - 1]));
    crate::text::lemma_trim_fixed(name);
    assert(neg[neg.len() - 1] == name[name.len() - 1]);
    crate::text::lemma_trim_fixed(neg);
    assert(!name.contains(','));
    assert(!neg.contains(',')) by {
        if neg.contains(',') {
            let i = choose|i: int| 0 <= i < neg.len() && neg[i] == ',';
            if i > 0 {
                assert(name[i - 1] == ',');
            }
        }
    }
    let n = normalized_kind_name(name);
    assert(n =~= name);
    match k {
        StateKind::Todo => {
            assert(n != "done"@ && n != "in_progress"@ && n != "blocked"@) by {
                assert(n[0] == 't');
            }
        },
        StateKind::InProgress => {
            assert(n != "done"@);
        },
        StateKind::Blocked => {
            assert(n != "done"@ && n != "in_progress"@);
        },
        StateKind::Done => {},
        StateKind::Backlog => {
            assert(n != "done"@ && n != "in_progress"@ && n != "blocked"@ && n != "todo"@) by {
                assert(n[0] == 'b' && n[1] == 'a');
            }
        },
    }
}

/// Reads a state kind name such as `done`, `In Progress` or `in-progress`.
pub fn parse_state_kind_name(name: &str) -> (r: Option<StateKind>)
    ensures
        r == kind_by_name(name@),
{
    let chars = chars_of(name);
    let t = trim_chars(&chars);
    let mut n: Vec<char> = Vec::new();
    for i in 0..t.len()
        invariant
            n@ == t@.take(i as int).map_values(
                |c: char| if c == '-' || c == ' ' { '_' } else { ascii_lower(c) },
            ),
    {
        let c = t[i];
        let d = if c == '-' || c == ' ' {
            '_'
        } else if 'A' <= c && c <= 'Z' {
            ((c as u32) + 32) as u8 as char
        } else {
            c
        };
        assert(d == (if c == '-' || c == ' ' { '_' } else { ascii_lower(c) }));
        n.push(d);
        assert(t@.take(i + 1) =~= t@.take(i as int).push(c));
        assert(n@ =~= t@.take(i + 1).map_values(
            |c: char| if c == '-' || c == ' ' { '_' } else { ascii_lower(c) },
        ));
    }
    assert(t@.take(t.len() as int) =~= t@);
    if chars_eq(&n, &chars_of("done")) {
        Some(StateKind::Done)
    } else if chars_eq(&n, &chars_of("in_progress")) {
        Some(StateKind::InProgress)
    } else if chars_eq(&n, &chars_of("blocked")) {
        Some(StateKind::Blocked)
    } else if chars_eq(&n, &chars_of("todo")) {
        Some(StateKind::Todo)
    } else if chars_eq(&n, &chars_of("backlog")) {
        Some(StateKind::Backlog)
    } else {
        None
    }
}

/// The state kinds that filters accept, as listed in editor hints.
pub fn state_kind_options_hint() -> (r: &'static str)
    ensures
        r@ == "done, in_progress, blocked, todo, backlog"@,
{
    "done, in_progress, blocked, todo, backlog"
}

// ---------------------------------------------------------------------------
// Comments
// ---------------------------------------------------------------------------

/// A line that is a template comment: its first non-blank character is `#`.
pub open spec fn is_comment_line(line: Seq<char>) -> bool {
    trim_start(line).len() > 0 && trim_start(line)[0] == '#'
}

/// The lines that are not template comments, in order.
pub open spec fn non_comment_lines(ls: Seq<Seq<char>>) -> Seq<Seq<char>>
    decreases ls.len(),
{
    if ls.len() == 0 {
        ls
    } else if is_comment_line(ls.last()) {
        non_comment_lines(ls.drop_last())
    } else {
        non_comment_lines(ls.drop_last()).push(ls.last())
    }
}

/// The comment body an editor session produced: the non-comment lines
/// joined with newlines and trimmed; none when nothing is left.
pub open spec fn comment_body(raw: Seq<char>) -> Option<Seq<char>> {
    let body = trim(join(non_comment_lines(lines(raw)), "\n"@));
    if body.len() == 0 {
        None
    } else {
        Some(body)
    }
}

fn is_comment_chars(line: &Vec<char>) -> (r: bool)
    ensures
        r == is_comment_line(line@),
{
    let t = trim_start_chars(line);
    t.len() > 0 && t[0] == '#'
}

/// Reads the comment body from the editor output.
pub fn parse_comment_editor_output(raw: &str) -> (r: Option<String>)
    ensures
        match r {
            Some(s) => comment_body(raw@) == Some(s@),
            None => comment_body(raw@) is None,
        },
{
    let chars = chars_of(raw);
    let ls = lines_chars(&chars);
    let ghost lv = cviews(ls@);
    let mut kept: Vec<Vec<char>> = Vec::new();
    for i in 0..ls.len()
        invariant
            lv == cviews(ls@),
            cviews(kept@) == non_comment_lines(lv.take(i as int)),
    {
        assert(lv.take(i + 1).drop_last() =~= lv.take(i as int));
        assert(lv.take(i + 1).last() == ls@[i as int]@);
        if !is_comment_chars(&ls[i]) {
            let copy = slice_chars(&ls[i], 0, ls[i].len());
            assert(copy@ =~= ls@[i as int]@);
            let ghost before = cviews(kept@);
            kept.push(copy);
            assert(cviews(kept@) =~= before.push(copy@));
        }
    }
    assert(lv.take(ls.len() as int) =~= lv);
    let body = join_chars(&kept, &chars_of("\n"));
    let t = trim_chars(&body);
    if t.len() == 0 {
        None
    } else {
        Some(crate::text::string_from_chars(&t))
    }
}

// ---------------------------------------------------------------------------
// New and edited tasks
// ---------------------------------------------------------------------------

/// The fields read so far from a task editor session.
pub struct EditorFields {
    pub title: Option<Seq<char>>,
    pub state: Option<Seq<char>>,
    pub labels: Option<Seq<char>>,
    pub assignees: Option<Seq<char>>,
    pub description: Seq<Seq<char>>,
    pub in_description: bool,
}

/// Nothing read yet.
pub open spec fn no_fields() -> EditorFields {
    EditorFields {
        title: None,
        state: None,
        labels: None,
        assignees: None,
        description: Seq::empty(),
        in_description: false,
    }
}

/// The error for a field name that the task form does not have.
pub open spec fn unknown_field_error(key: Seq<char>) -> Seq<char> {
    "未知のフィールドです: "@ + key
}

/// The error for a line that is not `key: value`.
pub open spec fn malformed_line_error(line: Seq<char>) -> Seq<char> {
    "フィールドの形式が正しくありません: "@ + line
}

/// Reading one more line of a task editor session. Comment lines are
/// skipped everywhere; after the `---` line every line belongs to the
/// description; before it, blank lines are skipped and every other line is
/// `key: value` with key `title`, `state`, `labels` or `assignees`.
pub open spec fn field_step(st: EditorFields, line: Seq<char>) -> Result<EditorFields, Seq<char>> {
    let trimmed = trim(line);
    if trimmed.len() > 0 && trimmed[0] == '#' {
        Ok(st)
    } else if st.in_description {
        Ok(EditorFields { description: st.description.push(line), ..st })
    } else if trimmed.len() == 0 {
        Ok(st)
    } else if trimmed == "---"@ {
        Ok(EditorFields { in_description: true, ..st })
    } else {
        match find_char(trimmed, ':') {
            Some(i) => {
                let key = trim(trimmed.take(i));
                let value = trim(trimmed.skip(i + 1));
                if key == "title"@ {
                    Ok(EditorFields { title: Some(value), ..st })
                } else if key == "state"@ {
                    Ok(EditorFields { state: Some(value), ..st })
                } else if key == "labels"@ {
                    Ok(EditorFields { labels: Some(value), ..st })
                } else if key == "assignees"@ {
                    Ok(EditorFields { assignees: Some(value), ..st })
                } else {
                    Err(unknown_field_error(key))
                }
            },
            None => Err(malformed_line_error(trimmed)),
        }
    }
}

/// The fields read from the given lines, or the first error.
pub open spec fn fields_of(ls: Seq<Seq<char>>) -> Result<EditorFields, Seq<char>>
    decreases ls.len(),
{
    if ls.len() == 0 {
        Ok(no_fields())
    } else {
        match fields_of(ls.drop_last()) {
            Err(e) => Err(e),
            Ok(st) => field_step(st, ls.last()),
        }
    }
}

/// Reading one more line extends the reading of the lines before it.
pub proof fn lemma_fields_push(ls: Seq<Seq<char>>, l: Seq<char>)
    ensures
        fields_of(ls.push(l)) == match fields_of(ls) {
            Err(e) => Err(e),
            Ok(st) => field_step(st, l),
        },
{
    assert(ls.push(l).drop_last() =~= ls);
}

/// The first occurrence of a character is where it occurs with none before.
pub proof fn lemma_find_first(s: Seq<char>, c: char, i: int)
    requires
        0 <= i < s.len(),
        s[i] == c,
        forall|k: int| 0 <= k < i ==> s[k] != c,
    ensures
        find_char(s, c) == Some(i),
{
    assert(exists|j: int| 0 <= j < s.len() && s[j] == c);
    let j = choose|j: int| 0 <= j < s.len() && s[j] == c && forall|k: int| 0 <= k < j ==> s[k] != c;
    assert(s[i] == c);
    if j < i {
        assert(s[j] != c);
    }
    if j > i {
        assert(s[i] != c);
    }
}

/// A line that starts with `#` is a comment and leaves the fields as they
/// are.
pub proof fn lemma_comment_line(st: EditorFields, line: Seq<char>)
    requires
        line.len() > 0,
        line[0] == '#',
    ensures
        field_step(st, line) == Ok::<EditorFields, Seq<char>>(st),
{
    assert(!is_ws('#'));
    crate::text::lemma_trim_keeps_first(line);
}

/// A name that a form line carries before its colon.
pub open spec fn is_field_name(key: Seq<char>) -> bool {
    &&& key.len() > 0
    &&& !key.contains(':')
    &&& trim(key) == key
    &&& key[0] != '#'
    &&& key[0] != '-'
}

/// The line `key: value`, for a field name and a trimmed value, trims to a
/// text that starts with the key's first character, whose first colon ends
/// the key, and whose key and value read back trimmed.
pub proof fn lemma_key_value_line(key: Seq<char>, value: Seq<char>)
    requires
        is_field_name(key),
        trim(value) == value,
    ensures
        ({
            let t = trim(key + ": "@ + value);
            &&& t.len() > key.len()
            &&& t[0] == key[0]
            &&& t.take(key.len() as int) == key
            &&& find_char(t, ':') == Some(key.len() as int)
            &&& trim(t.take(key.len() as int)) == key
            &&& trim(t.skip(key.len() as int + 1)) == value
        }),
{
    reveal_strlit(": ");
    reveal_strlit(":");
    reveal_strlit(" ");
    let line = key + ": "@ + value;
    crate::text::lemma_trimmed_ends(key);
    let t = if value.len() == 0 {
        key + ":"@
    } else {
        line
    };
    if value.len() == 0 {
        assert(line =~= (key + ":"@).push(' '));
        assert(trim_start(line) == line);
        assert(is_ws(line.last()));
        assert(trim_end(line) == trim_end(line.drop_last()));
        assert(line.drop_last() =~= key + ":"@);
        assert(!is_ws((key + ":"@).last()));
        assert(trim_end(key + ":"@) == key + ":"@);
        assert(trim_start(key + ":"@) == key + ":"@);
    } else {
        crate::text::lemma_trimmed_ends(value);
        assert(line[0] == key[0]);
        assert(line[line.len() - 1] == value[value.len() - 1]);
        crate::text::lemma_trim_fixed(line);
    }
    assert(trim(line) == t);
    assert(t[key.len() as int] == ':');
    assert forall|k: int| 0 <= k < key.len() implies t[k] != ':' by {
        assert(t[k] == key[k]);
        if key[k] == ':' {
            assert(key.contains(':'));
        }
    }
    lemma_find_first(t, ':', key.len() as int);
    assert(t.take(key.len() as int) =~= key);
    if value.len() == 0 {
        assert(t.skip(key.len() as int + 1) =~= Seq::<char>::empty());
        assert(trim(Seq::<char>::empty()) =~= Seq::<char>::empty());
        assert(value =~= Seq::<char>::empty());
    } else {
        assert(t.skip(key.len() as int + 1) =~= " "@ + value);
        crate::text::lemma_trim_after_blank(value);
    }
}

/// The line `key: value` of a form, for a field name and a trimmed value
/// without a line break, reads as that key and value.
pub proof fn lemma_field_line(st: EditorFields, key: Seq<char>, value: Seq<char>)
    requires
        is_field_name(key),
        trim(value) == value,
        !st.in_description,
    ensures
        field_step(st, key + ": "@ + value) == if key == "title"@ {
            Ok(EditorFields { title: Some(value), ..st })
        } else if key == "state"@ {
            Ok(EditorFields { state: Some(value), ..st })
        } else if key == "labels"@ {
            Ok(EditorFields { labels: Some(value), ..st })
        } else if key == "assignees"@ {
            Ok(EditorFields { assignees: Some(value), ..st })
        } else {
            Err(unknown_field_error(key))
        },
{
    reveal_strlit("---");
    lemma_key_value_line(key, value);
    let t = trim(key + ": "@ + value);
    assert(t != "---"@) by {
        if t == "---"@ {
            assert(t[0] == '-');
        }
    }
}

/// After the `---` line, lines that are no comments are description lines.
pub proof fn lemma_fields_description(prefix: Seq<Seq<char>>, st: EditorFields, ds: Seq<Seq<char>>)
    requires
        fields_of(prefix) == Ok::<EditorFields, Seq<char>>(st),
        st.in_description,
        forall|i: int| 0 <= i < ds.len() ==> !(trim(#[trigger] ds[i]).len() > 0 && trim(ds[i])[0] == '#'),
    ensures
        fields_of(prefix + ds) == Ok::<EditorFields, Seq<char>>(
            EditorFields { description: st.description + ds, ..st },
        ),
    decreases ds.len(),
{
    if ds.len() == 0 {
        assert(prefix + ds =~= prefix);
        assert(st.description + ds =~= st.description);
    } else {
        let init = ds.drop_last();
        lemma_fields_description(prefix, st, init);
        lemma_fields_push(prefix + init, ds.last());
        assert((prefix + init).push(ds.last()) =~= prefix + ds);
        assert(!(trim(ds[ds.len() - 1]).len() > 0 && trim(ds[ds.len() - 1])[0] == '#'));
        assert((st.description + init).push(ds.last()) =~= st.description + ds);
    }
}

/// A field value, empty when absent.
pub open spec fn field_or_empty(f: Option<Seq<char>>) -> Seq<char> {
    match f {
        Some(v) => trim(v),
        None => Seq::<char>::empty(),
    }
}

/// The error when the title is missing.
pub open spec fn missing_title_error() -> Seq<char> {
    "タイトルを入力してください"@
}

/// What a task editor session produced: nothing when every field is empty,
/// an error when the title is missing, otherwise the task data.
pub open spec fn new_task_result(raw: Seq<char>) -> Result<Option<NewTaskView>, Seq<char>> {
    match fields_of(lines(raw)) {
        Err(e) => Err(e),
        Ok(st) => {
            let title = field_or_empty(st.title);
            let state = field_or_empty(st.state);
            let labels = field_or_empty(st.labels);
            let assignees = field_or_empty(st.assignees);
            let description = join(st.description, "\n"@);
            if title.len() == 0 && state.len() == 0 && labels.len() == 0 && assignees.len() == 0
                && trim(description).len() == 0 {
                Ok(None)
            } else if title.len() == 0 {
                Err(missing_title_error())
            } else {
                Ok(
                    Some(
                        NewTaskView {
                            title,
                            state: if state.len() == 0 {
                                None
                            } else {
                                Some(state)
                            },
                            labels: parsed_list(labels),
                            assignees: parsed_list(assignees),
                            description: if trim(description).len() == 0 {
                                None
                            } else {
                                Some(trim_end(description))
                            },
                            parent: None,
                        },
                    ),
                )
            }
        },
    }
}

/// Exec state of the task form reader.
struct FieldReader {
    title: Option<Vec<char>>,
    state: Option<Vec<char>>,
    labels: Option<Vec<char>>,
    assignees: Option<Vec<char>>,
    description: Vec<Vec<char>>,
    in_description: bool,
}

spec fn opt_cview(o: Option<Vec<char>>) -> Option<Seq<char>> {
    match o {
        Some(v) => Some(v@),
        None => None,
    }
}

spec fn reader_view(r: FieldReader) -> EditorFields {
    EditorFields {
        title: opt_cview(r.title),
        state: opt_cview(r.state),
        labels: opt_cview(r.labels),
        assignees: opt_cview(r.assignees),
        description: cviews(r.description@),
        in_description: r.in_description,
    }
}

fn read_line(rd: &mut FieldReader, line: &Vec<char>) -> (r: Result<(), Vec<char>>)
    ensures
        match field_step(reader_view(*old(rd)), line@) {
            Ok(st) => r is Ok && reader_view(*final(rd)) == st,
            Err(e) => r matches Err(x) && x@ == e,
        },
{
    let trimmed = trim_chars(line);
    if trimmed.len() > 0 && trimmed[0] == '#' {
        return Ok(());
    }
    if rd.in_description {
        let copy = slice_chars(line, 0, line.len());
        assert(copy@ =~= line@);
        let ghost before = cviews(rd.description@);
        rd.description.push(copy);
        assert(cviews(rd.description@) =~= before.push(line@));
        return Ok(());
    }
    if trimmed.len() == 0 {
        return Ok(());
    }
    if chars_eq(&trimmed, &chars_of("---")) {
        rd.in_description = true;
        return Ok(());
    }
    match find_char_index(&trimmed, ':') {
        Some(i) => {
            let key = trim_chars(&slice_chars(&trimmed, 0, i));
            let value = trim_chars(&slice_chars(&trimmed, i + 1, trimmed.len()));
            assert(trimmed@.subrange(0, i as int) =~= trimmed@.take(i as int));
            assert(trimmed@.subrange(i + 1, trimmed@.len() as int) =~= trimmed@.skip(i + 1));
            if chars_eq(&key, &chars_of("title")) {
                rd.title = Some(value);
                Ok(())
            } else if chars_eq(&key, &chars_of("state")) {
                rd.state = Some(value);
                Ok(())
            } else if chars_eq(&key, &chars_of("labels")) {
                rd.labels = Some(value);
                Ok(())
            } else if chars_eq(&key, &chars_of("assignees")) {
                rd.assignees = Some(value);
                Ok(())
            } else {
                let mut msg = chars_of("未知のフィールドです: ");
                let mut k = key;
                msg.append(&mut k);
                Err(msg)
            }
        },
        None => {
            let mut msg = chars_of("フィールドの形式が正しくありません: ");
            let mut t = trimmed;
            msg.append(&mut t);
            Err(msg)
        },
    }
}

fn field_or_empty_chars(f: &Option<Vec<char>>) -> (r: Vec<char>)
    ensures
        r@ == field_or_empty(opt_cview(*f)),
{
    match f {
        Some(v) => trim_chars(v),
        None => Vec::new(),
    }
}

/// Reads the task form from the editor output.
pub fn parse_new_task_editor_output(raw: &str) -> (r: Result<Option<NewTaskData>, String>)
    ensures
        match new_task_result(raw@) {
            Ok(None) => r matches Ok(None),
            Ok(Some(v)) => r matches Ok(Some(d)) && d@ == v,
            Err(e) => r matches Err(m) && m@ == e,
        },
{
    let chars = chars_of(raw);
    let ls = lines_chars(&chars);
    let ghost lv = cviews(ls@);
    let mut rd = FieldReader {
        title: None,
        state: None,
        labels: None,
        assignees: None,
        description: Vec::new(),
        in_description: false,
    };
    assert(cviews(rd.description@) =~= Seq::<Seq<char>>::empty());
    assert(reader_view(rd) == no_fields());
    assert(lv.take(0) =~= Seq::<Seq<char>>::empty());
    for i in 0..ls.len()
        invariant
            lv == cviews(ls@),
            lv == lines(raw@),
            fields_of(lv.take(i as int)) == Ok::<EditorFields, Seq<char>>(reader_view(rd)),
    {
        assert(lv.take(i + 1).drop_last() =~= lv.take(i as int));
        assert(lv.take(i + 1).last() == ls@[i as int]@);
        let ghost before = reader_view(rd);
        match read_line(&mut rd, &ls[i]) {
            Ok(()) => {},
            Err(e) => {
                proof {
                    assert(field_step(before, ls@[i as int]@) == Err::<EditorFields, Seq<char>>(e@));
                    assert(fields_of(lv.take(i + 1)) == Err::<EditorFields, Seq<char>>(e@));
                    lemma_fields_err_sticks(lv, i + 1, lv.len() as int);
                    assert(lv.take(lv.len() as int) =~= lv);
                }
                return Err(crate::text::string_from_chars(&e));
            },
        }
    }
    assert(lv.take(ls.len() as int) =~= lv);
    let title = field_or_empty_chars(&rd.title);
    let state = field_or_empty_chars(&rd.state);
    let labels = field_or_empty_chars(&rd.labels);
    let assignees = field_or_empty_chars(&rd.assignees);
    let description = join_chars(&rd.description, &chars_of("\n"));
    let desc_trimmed = trim_chars(&description);
    if title.len() == 0 && state.len() == 0 && labels.len() == 0 && assignees.len() == 0
        && desc_trimmed.len() == 0 {
        return Ok(None);
    }
    if title.len() == 0 {
        return Err(crate::text::owned("タイトルを入力してください"));
    }
    let state_out = if state.len() == 0 {
        None
    } else {
        Some(crate::text::string_from_chars(&state))
    };
    let description_out = if desc_trimmed.len() == 0 {
        None
    } else {
        Some(crate::text::string_from_chars(&trim_end_chars(&description)))
    };
    let label_list = strings_from_chars(&parse_list_chars(&labels));
    let assignee_list = strings_from_chars(&parse_list_chars(&assignees));
    Ok(
        Some(
            NewTaskData {
                title: crate::text::string_from_chars(&title),
                state: state_out,
                labels: label_list,
                assignees: assignee_list,
                description: description_out,
                parent: None,
            },
        ),
    )
}

proof fn lemma_fields_err_sticks(ls: Seq<Seq<char>>, i: int, j: int)
    requires
        0 <= i <= j <= ls.len(),
        fields_of(ls.take(i)) is Err,
    ensures
        fields_of(ls.take(j)) == fields_of(ls.take(i)),
    decreases j - i,
{
    if j > i {
        lemma_fields_err_sticks(ls, i, j - 1);
        assert(ls.take(j).drop_last() =~= ls.take(j - 1));
    }
}


/// The editor command: `GIT_MILE_EDITOR`, else `VISUAL`, else `EDITOR`,
/// else `vi`, each given as the value of that variable when it is set.
pub fn resolve_editor_command(git_mile_editor: Option<String>, visual: Option<String>, editor: Option<String>) -> (r:
    String)
    ensures
        r@ == crate::event_log::first_given(
            crate::task::opt_view(git_mile_editor),
            crate::task::opt_view(visual),
            crate::task::opt_view(editor),
            "vi"@,
        ),
{
    crate::event_log::first_given_string(git_mile_editor, visual, editor, "vi")
}


/// The lines a comment keeps are, in order, exactly those whose first
/// non-blank character is not `#`: a line with a `#` further on is kept.
pub proof fn lemma_comment_keeps_text_lines(ls: Seq<Seq<char>>)
    ensures
        non_comment_lines(ls) == ls.filter(
            |l: Seq<char>| !(trim_start(l).len() > 0 && trim_start(l)[0] == '#'),
        ),
    decreases ls.len(),
{
    let f = |l: Seq<char>| !(trim_start(l).len() > 0 && trim_start(l)[0] == '#');
    if ls.len() > 0 {
        lemma_comment_keeps_text_lines(ls.drop_last());
        ls.drop_last().lemma_filter_push(ls.last(), f);
        assert(ls.drop_last().push(ls.last()) =~= ls);
    } else {
        assert(ls.filter(f) =~= ls);
    }
}

} // verus!
