//! Text shown by the terminal interface: shortened titles, state markers,
//! the clipboard escape sequence and the editor templates.
use vstd::prelude::*;

use crate::event_log::Actor;
use crate::task::{opt_view, uuid_text, StateKind, TaskId};
use crate::editor::{
    field_step, fields_of, is_list_entry, lemma_comment_line, lemma_field_line, lemma_fields_description,
    lemma_fields_push, new_task_result, no_fields, parsed_list, EditorFields, NewTaskData, NewTaskView,
};
use vstd::std_specs::convert::FromSpec;
use crate::task_patch::{lemma_patch_empty_iff_unchanged, patch_for, patch_is_empty, TaskEditData};
use crate::text::{concat2, is_ws, join, join_strings, lines, owned, push_str, trim, trim_end, views};
use crate::visibility::TaskView;

verus! {

/// The extended grapheme clusters of a text, in order, as the
/// `unicode-segmentation` crate splits it.
pub uninterp spec fn grapheme_clusters(s: Seq<char>) -> Seq<Seq<char>>;

/// The parts of a text, one after the other.
pub open spec fn concat_all(parts: Seq<Seq<char>>) -> Seq<char> {
    join(parts, Seq::<char>::empty())
}

/// Splits a text into extended grapheme clusters with the
/// `unicode-segmentation` crate (`graphemes(true)`). The contract names the
/// result and states what the crate's iterator shows of it: the clusters
/// are consecutive slices of the text, none empty, that together make the
/// text. Where the boundaries fall is left to the crate.
#[verifier::external_body]
fn graphemes_of(s: &str) -> (r: Vec<String>)
    ensures
        views(r@) == grapheme_clusters(s@),
        concat_all(views(r@)) == s@,
        forall|i: int| 0 <= i < r@.len() ==> (#[trigger] r@[i])@.len() > 0,
{
    unicode_segmentation::UnicodeSegmentation::graphemes(s, true).map(|g| g.to_string()).collect()
}

/// A shortened text: the input itself, or a new text.
#[derive(Debug)]
pub enum TruncatedText<'a> {
    Borrowed(&'a str),
    Owned(String),
}

impl<'a> TruncatedText<'a> {
    /// The characters of the text.
    pub open spec fn chars(&self) -> Seq<char> {
        match self {
            TruncatedText::Borrowed(s) => s@,
            TruncatedText::Owned(s) => s@,
        }
    }

    /// The text.
    pub fn as_str(&self) -> (r: &str)
        ensures
            r@ == self.chars(),
    {
        match self {
            TruncatedText::Borrowed(s) => s,
            TruncatedText::Owned(s) => s.as_str(),
        }
    }
}

/// The text shortened to `max` grapheme clusters: unchanged when it fits;
/// otherwise its first clusters followed by `...`, which counts as three,
/// or, when `max` leaves no room for it, just the first `max` clusters.
pub open spec fn truncated(s: Seq<char>, max: nat) -> Seq<char> {
    let g = grapheme_clusters(s);
    if max == 0 {
        Seq::<char>::empty()
    } else if g.len() <= max {
        s
    } else if max <= 3 {
        concat_all(g.take(max as int))
    } else {
        concat_all(g.take(max - 3)) + "..."@
    }
}

proof fn lemma_concat_push(parts: Seq<Seq<char>>, p: Seq<char>)
    ensures
        concat_all(parts.push(p)) == concat_all(parts) + p,
{
    crate::text::lemma_join_push(parts, p, Seq::<char>::empty());
}

fn concat_first(parts: &Vec<String>, n: usize) -> (r: String)
    requires
        n <= parts@.len(),
    ensures
        r@ == concat_all(views(parts@).take(n as int)),
{
    let mut out = String::new();
    let mut i: usize = 0;
    while i < n
        invariant
            i <= n <= parts@.len(),
            out@ == concat_all(views(parts@).take(i as int)),
        decreases n - i,
    {
        proof {
            assert(views(parts@).take(i + 1) =~= views(parts@).take(i as int).push(parts@[i as int]@));
            lemma_concat_push(views(parts@).take(i as int), parts@[i as int]@);
        }
        push_str(&mut out, parts[i].as_str());
        i = i + 1;
    }
    out
}

/// Shorten a text to `max` grapheme clusters, ending it with `...` when it
/// is cut; a text that fits is handed back as it is.
pub fn truncate_with_ellipsis(input: &str, max: usize) -> (r: TruncatedText<'_>)
    ensures
        r.chars() == truncated(input@, max as nat),
        r is Borrowed <==> (max > 0 && grapheme_clusters(input@).len() <= max),
{
    if max == 0 {
        return TruncatedText::Owned(String::new());
    }
    let clusters = graphemes_of(input);
    if clusters.len() <= max {
        return TruncatedText::Borrowed(input);
    }
    if max <= 3 {
        return TruncatedText::Owned(concat_first(&clusters, max));
    }
    let mut out = concat_first(&clusters, max - 3);
    push_str(&mut out, "...");
    TruncatedText::Owned(out)
}

/// The decimal digit character of `d`.
pub open spec fn digit_char(d: nat) -> char {
    ((d + 48) as u8) as char
}

/// The decimal text of a number.
pub open spec fn decimal(n: nat) -> Seq<char>
    decreases n,
{
    if n < 10 {
        seq![digit_char(n)]
    } else {
        decimal(n / 10).push(digit_char(n % 10))
    }
}

/// The decimal text of a count.
pub fn decimal_text(n: usize) -> (r: String)
    ensures
        r@ == decimal(n as nat),
    decreases n,
{
    let d = (n % 10) as u8;
    let c = (d + 48) as char;
    assert(c == digit_char((n % 10) as nat));
    if n < 10 {
        let mut out = String::new();
        crate::text::push_char(&mut out, c);
        assert(out@ =~= seq![c]);
        out
    } else {
        let mut out = decimal_text(n / 10);
        crate::text::push_char(&mut out, c);
        out
    }
}

/// The time of an event as the `time` crate displays it; empty when the
/// crate cannot represent the instant.
pub open spec fn event_time_text(ts: i128) -> Seq<char> {
    match crate::filter::datetime_display_text(ts) {
        Some(t) => t,
        None => Seq::<char>::empty(),
    }
}

/// The lines that show one comment: its author and time, its body lines,
/// and a blank line.
pub open spec fn comment_block(c: crate::visibility::TaskComment) -> Seq<Seq<char>> {
    seq![c.actor.name@ + " <"@ + c.actor.email@ + "> ["@ + event_time_text(c.ts) + "]"@] + lines(
        c.body@,
    ) + seq![Seq::<char>::empty()]
}

/// The lines that show comments, one block after the other.
pub open spec fn comment_blocks(cs: Seq<crate::visibility::TaskComment>) -> Seq<Seq<char>>
    decreases cs.len(),
{
    if cs.len() == 0 {
        Seq::<Seq<char>>::empty()
    } else {
        comment_blocks(cs.drop_last()) + comment_block(cs.last())
    }
}

/// The lines of the comment pane of a task.
pub open spec fn comment_pane(task: TaskView) -> Seq<Seq<char>> {
    if task.comments@.len() == 0 {
        seq!["コメントはまだありません。"@]
    } else {
        comment_blocks(task.comments@)
    }
}

/// The lines of a text, as strings.
pub fn text_lines(text: &str) -> (r: Vec<String>)
    ensures
        views(r@) == lines(text@),
{
    let ls = crate::text::lines_chars(&crate::text::chars_of(text));
    crate::text::strings_from_chars(&ls)
}

/// Append the second list of lines to the first.
fn append_lines(out: &mut Vec<String>, more: Vec<String>)
    ensures
        views(final(out)@) == views(old(out)@) + views(more@),
{
    let mut more = more;
    let ghost a = views(out@);
    let ghost b = views(more@);
    out.append(&mut more);
    assert(views(out@) =~= a + b);
}

/// The lines of the comment pane of a task: each comment's author and
/// time, body lines and a blank line, or a note that there is none.
pub fn comment_pane_lines(task: &TaskView) -> (r: Vec<String>)
    ensures
        views(r@) == comment_pane(*task),
{
    let mut out: Vec<String> = Vec::new();
    if task.comments.len() == 0 {
        out.push(owned("コメントはまだありません。"));
        assert(views(out@) =~= seq!["コメントはまだありません。"@]);
        return out;
    }
    let mut i: usize = 0;
    while i < task.comments.len()
        invariant
            i <= task.comments@.len(),
            views(out@) == comment_blocks(task.comments@.take(i as int)),
        decreases task.comments@.len() - i,
    {
        let c = &task.comments[i];
        let mut header = owned(c.actor.name.as_str());
        push_str(&mut header, " <");
        push_str(&mut header, c.actor.email.as_str());
        push_str(&mut header, "> [");
        let time = match crate::filter::display_datetime(c.ts) {
            Some(t) => t,
            None => String::new(),
        };
        push_str(&mut header, time.as_str());
        push_str(&mut header, "]");
        assert(time@ == event_time_text(c.ts));
        assert(header@ == c.actor.name@ + " <"@ + c.actor.email@ + "> ["@ + event_time_text(c.ts) + "]"@);
        let ghost before = views(out@);
        out.push(header);
        let body = text_lines(c.body.as_str());
        let ghost mid = views(out@);
        append_lines(&mut out, body);
        let blank = String::new();
        assert(blank@ =~= Seq::<char>::empty());
        let ghost mid2 = views(out@);
        out.push(blank);
        assert(views(out@) =~= mid2.push(Seq::<char>::empty()));
        proof {
            let t = task.comments@.take(i + 1);
            assert(t.drop_last() =~= task.comments@.take(i as int));
            assert(t.last() == task.comments@[i as int]);
            assert(views(out@) =~= before + comment_block(task.comments@[i as int]));
        }
        i = i + 1;
    }
    assert(task.comments@.take(task.comments@.len() as int) =~= task.comments@);
    out
}

/// The marker shown after a task of the given state kind.
pub open spec fn kind_marker(kind: Option<StateKind>) -> Seq<char> {
    match kind {
        Some(StateKind::Done) => " ✓"@,
        Some(StateKind::InProgress) => " →"@,
        Some(StateKind::Blocked) => " ⊗"@,
        Some(StateKind::Todo) => " □"@,
        Some(StateKind::Backlog) => " ◇"@,
        None => ""@,
    }
}

/// The marker shown after a task of the given state kind.
pub fn state_kind_marker(kind: Option<StateKind>) -> (r: &'static str)
    ensures
        r@ == kind_marker(kind),
{
    match kind {
        Some(StateKind::Done) => " ✓",
        Some(StateKind::InProgress) => " →",
        Some(StateKind::Blocked) => " ⊗",
        Some(StateKind::Todo) => " □",
        Some(StateKind::Backlog) => " ◇",
        None => "",
    }
}

/// The standard Base64 digit of a six-bit value.
pub open spec fn b64_digit(v: int) -> char {
    if v < 26 {
        (v + 65) as char
    } else if v < 52 {
        (v + 71) as char
    } else if v < 62 {
        (v - 4) as char
    } else if v == 62 {
        '+'
    } else {
        '/'
    }
}

/// Standard Base64 (RFC 4648, alphabet `A`-`Z`, `a`-`z`, `0`-`9`, `+`, `/`,
/// padded with `=`) of bytes.
pub open spec fn base64_of(b: Seq<u8>) -> Seq<char>
    decreases b.len(),
{
    if b.len() == 0 {
        Seq::<char>::empty()
    } else if b.len() == 1 {
        seq![b64_digit(b[0] as int / 4), b64_digit((b[0] as int % 4) * 16), '=', '=']
    } else if b.len() == 2 {
        seq![
            b64_digit(b[0] as int / 4),
            b64_digit((b[0] as int % 4) * 16 + b[1] as int / 16),
            b64_digit((b[1] as int % 16) * 4),
            '=',
        ]
    } else {
        seq![
            b64_digit(b[0] as int / 4),
            b64_digit((b[0] as int % 4) * 16 + b[1] as int / 16),
            b64_digit((b[1] as int % 16) * 4 + b[2] as int / 64),
            b64_digit(b[2] as int % 64),
        ] + base64_of(b.skip(3))
    }
}

/// Encodes the UTF-8 bytes of a text with the `base64` crate's `STANDARD`
/// engine (`Engine::encode`). The contract claims the crate's documented
/// output: RFC 4648 Base64 with the standard alphabet and `=` padding.
#[verifier::external_body]
fn base64_standard(text: &str) -> (r: String)
    ensures
        r@ == base64_of(vstd::utf8::encode_utf8(text@)),
{
    base64::Engine::encode(&base64::engine::general_purpose::STANDARD, text)
}

/// The OSC 52 escape sequence that asks the terminal to put a text on the
/// clipboard.
pub fn osc52_sequence(text: &str) -> (r: String)
    ensures
        r@ == "\x1b]52;c;"@ + base64_of(vstd::utf8::encode_utf8(text@)) + "\x07"@,
{
    let encoded = base64_standard(text);
    let mut out = concat2("\x1b]52;c;", encoded.as_str());
    push_str(&mut out, "\x07");
    out
}

/// The comment editor's initial text.
pub open spec fn comment_template(actor: Actor, task: TaskId) -> Seq<char> {
    "# コメントを入力してください。\n# 空のまま保存するとキャンセルされます。\n# Task: "@ + uuid_text(
        task.value,
    ) + "\n# Actor: "@ + actor.name@ + " <"@ + actor.email@ + ">\n\n"@
}

/// The comment editor's initial text.
pub fn comment_editor_template(actor: &Actor, task: TaskId) -> (r: String)
    ensures
        r@ == comment_template(*actor, task),
{
    let mut out = owned("# コメントを入力してください。\n# 空のまま保存するとキャンセルされます。\n# Task: ");
    push_str(&mut out, task.to_text().as_str());
    push_str(&mut out, "\n# Actor: ");
    push_str(&mut out, actor.name.as_str());
    push_str(&mut out, " <");
    push_str(&mut out, actor.email.as_str());
    push_str(&mut out, ">\n\n");
    out
}

/// The new task editor's initial text, for a subtask of `parent` when one
/// is given, with the state hint and the default state when there are.
pub open spec fn new_task_template(
    parent: Option<TaskView>,
    hint: Option<Seq<char>>,
    default_state: Option<Seq<char>>,
) -> Seq<char> {
    join(new_task_lines(parent, hint, default_state), "\n"@)
}

/// The header line of the new task editor.
pub open spec fn new_task_header(parent: Option<TaskView>) -> Seq<char> {
    match parent {
        Some(p) => "# 新規タスク（親: "@ + p.snapshot.title@ + " ["@ + uuid_text(p.snapshot.id.value).take(12)
            + "...]）を作成します。"@,
        None => "# 新規タスクを作成します。"@,
    }
}

/// The hint line, when there is a hint.
pub open spec fn hint_lines(hint: Option<Seq<char>>) -> Seq<Seq<char>> {
    match hint {
        Some(h) => seq!["# state 候補: "@ + h],
        None => Seq::<Seq<char>>::empty(),
    }
}

/// The lines of the new task editor.
pub open spec fn new_task_lines(
    parent: Option<TaskView>,
    hint: Option<Seq<char>>,
    default_state: Option<Seq<char>>,
) -> Seq<Seq<char>> {
    seq![
        new_task_header(parent),
        "# タイトルは必須です。"@,
        "# 空のまま保存すると作成をキャンセルしたものとして扱います。"@,
        "title: "@,
    ] + hint_lines(hint) + seq![
        "state: "@ + match default_state {
            Some(d) => d,
            None => Seq::<char>::empty(),
        },
        "labels: "@,
        "assignees: "@,
        "---"@,
        "# この下に説明をMarkdown形式で記入してください。不要なら空のままにしてください。"@,
        Seq::<char>::empty(),
    ]
}

/// The new task editor's initial text.
pub fn new_task_editor_template(
    parent: Option<&TaskView>,
    state_hint: Option<&str>,
    default_state: Option<&str>,
) -> (r: String)
    ensures
        r@ == new_task_template(
            match parent {
                Some(p) => Some(*p),
                None => None,
            },
            match state_hint {
                Some(h) => Some(h@),
                None => None,
            },
            match default_state {
                Some(d) => Some(d@),
                None => None,
            },
        ),
{
    let header = match parent {
        Some(p) => {
            let id_text = p.snapshot.id.to_text();
            let id_chars = crate::text::chars_of(id_text.as_str());
            proof {
                crate::task::lemma_uuid_text_len(p.snapshot.id.value);
            }
            let short = crate::text::string_from_chars(&crate::text::slice_chars(&id_chars, 0, 12));
            assert(short@ =~= uuid_text(p.snapshot.id.value).take(12));
            let mut h = concat2("# 新規タスク（親: ", p.snapshot.title.as_str());
            push_str(&mut h, " [");
            push_str(&mut h, short.as_str());
            push_str(&mut h, "...]）を作成します。");
            h
        },
        None => owned("# 新規タスクを作成します。"),
    };
    let mut ls: Vec<String> = Vec::new();
    ls.push(header);
    ls.push(owned("# タイトルは必須です。"));
    ls.push(owned("# 空のまま保存すると作成をキャンセルしたものとして扱います。"));
    ls.push(owned("title: "));
    let ghost first = views(ls@);
    match state_hint {
        Some(h) => ls.push(concat2("# state 候補: ", h)),
        None => {},
    }
    let ghost second = views(ls@);
    match default_state {
        Some(d) => ls.push(concat2("state: ", d)),
        None => ls.push(owned("state: ")),
    }
    ls.push(owned("labels: "));
    ls.push(owned("assignees: "));
    ls.push(owned("---"));
    ls.push(owned("# この下に説明をMarkdown形式で記入してください。不要なら空のままにしてください。"));
    ls.push(String::new());
    proof {
        let hint_part = match state_hint {
            Some(h) => seq!["# state 候補: "@ + h@],
            None => Seq::<Seq<char>>::empty(),
        };
        let hdr = match parent {
            Some(p) => "# 新規タスク（親: "@ + p.snapshot.title@ + " ["@ + uuid_text(p.snapshot.id.value).take(12)
                + "...]）を作成します。"@,
            None => "# 新規タスクを作成します。"@,
        };
        assert(first =~= seq![
            hdr,
            "# タイトルは必須です。"@,
            "# 空のまま保存すると作成をキャンセルしたものとして扱います。"@,
            "title: "@,
        ]);
        assert("state: "@ + Seq::<char>::empty() =~= "state: "@);
        assert(second =~= first + hint_part);
        assert(views(ls@) =~= second + seq![
            "state: "@ + match default_state {
                Some(d) => d@,
                None => Seq::<char>::empty(),
            },
            "labels: "@,
            "assignees: "@,
            "---"@,
            "# この下に説明をMarkdown形式で記入してください。不要なら空のままにしてください。"@,
            Seq::<char>::empty(),
        ]);
        let pv = match parent {
            Some(p) => Some(*p),
            None => None,
        };
        let hv = match state_hint {
            Some(h) => Some(h@),
            None => None,
        };
        let dv = match default_state {
            Some(d) => Some(d@),
            None => None,
        };
        assert(new_task_header(pv) == hdr);
        assert(hint_lines(hv) == hint_part);
        assert(views(ls@) =~= new_task_lines(pv, hv, dv));
    }
    join_strings(&ls, "\n")
}

/// A value that a one-line form field carries unchanged: trimmed, and
/// without a line break.
pub open spec fn is_line_value(v: Seq<char>) -> bool {
    trim(v) == v && !v.contains('\n')
}

/// The entries carried by a list field: each one a list entry without a line
/// break.
pub open spec fn carries_entries(items: Seq<Seq<char>>) -> bool {
    forall|i: int| 0 <= i < items.len() ==> is_list_entry(#[trigger] items[i]) && !items[i].contains('\n')
}

/// A description the form carries unchanged: none, or one without a
/// carriage return, without trailing whitespace, not blank, and whose
/// lines are no template comments.
pub open spec fn carries_description(d: Seq<char>) -> bool {
    d.len() == 0 || {
        &&& trim_end(d) == d
        &&& trim(d).len() > 0
        &&& !d.contains('\r')
        &&& forall|i: int|
            0 <= i < lines(d).len() ==> !(trim(#[trigger] lines(d)[i]).len() > 0 && trim(lines(d)[i])[0]
                == '#')
    }
}

/// The edit form of a task carries its fields unchanged: a title and a
/// state that are one-line values (the title not empty, the state, when
/// set, not empty), labels and assignees that are list entries, a hint
/// without line breaks, and a description as above.
pub open spec fn edit_form_carries(task: TaskView, hint: Option<Seq<char>>) -> bool {
    let s = task.snapshot;
    &&& s.title@.len() > 0 && is_line_value(s.title@)
    &&& match opt_view(s.state) {
        Some(v) => v.len() > 0 && is_line_value(v),
        None => true,
    }
    &&& carries_entries(views(s.labels@))
    &&& carries_entries(views(s.assignees@))
    &&& match hint {
        Some(h) => !h.contains('\n') && !h.contains('\r'),
        None => true,
    }
    &&& carries_description(s.description@)
}

/// The fields of a task as the task form reads them.
pub open spec fn form_fields(task: TaskView) -> NewTaskView {
    let s = task.snapshot;
    NewTaskView {
        title: s.title@,
        state: opt_view(s.state),
        labels: views(s.labels@),
        assignees: views(s.assignees@),
        description: if s.description@.len() == 0 {
            None
        } else {
            Some(s.description@)
        },
        parent: None,
    }
}

/// The list field text of entries.
pub open spec fn list_text(items: Seq<Seq<char>>) -> Seq<char> {
    join(items, ", "@)
}

/// The text of a list field holds no line break, is its own trim, and
/// ends with a character that is no carriage return.
pub proof fn lemma_list_text(items: Seq<Seq<char>>)
    requires
        carries_entries(items),
    ensures
        !list_text(items).contains('\n'),
        trim(list_text(items)) == list_text(items),
        parsed_list(list_text(items)) == items,
        list_text(items).len() > 0 ==> !is_ws(list_text(items).last()),
{
    reveal_strlit(", ");
    assert forall|i: int| 0 <= i < items.len() implies !(#[trigger] items[i]).contains('\n') by {
        assert(is_list_entry(items[i]) && !items[i].contains('\n'));
    }
    assert(!", "@.contains('\n')) by {
        if ", "@.contains('\n') {
            let k = choose|k: int| 0 <= k < ", "@.len() && ", "@[k] == '\n';
        }
    }
    crate::text::lemma_join_free(items, ", "@, '\n');
    assert forall|i: int| 0 <= i < items.len() implies is_list_entry(#[trigger] items[i]) by {}
    crate::editor::lemma_parse_joined_list(items);
    if items.len() == 0 {
        assert(list_text(items) =~= Seq::<char>::empty());
        assert(trim(Seq::<char>::empty()) =~= Seq::<char>::empty());
    } else {
        assert forall|i: int| 0 <= i < items.len() implies (#[trigger] items[i]).len() > 0 by {
            assert(is_list_entry(items[i]));
        }
        crate::text::lemma_join_ends(items, ", "@);
        assert(is_list_entry(items[0]));
        assert(is_list_entry(items.last()));
        crate::text::lemma_trimmed_ends(items[0]);
        crate::text::lemma_trimmed_ends(items.last());
        crate::text::lemma_trim_fixed(list_text(items));
    }
}

/// A form line `key: value`, with a literal key, holds no line break and
/// does not end with a carriage return.
pub proof fn lemma_form_line_shape(key: Seq<char>, value: Seq<char>)
    requires
        !key.contains('\n'),
        !value.contains('\n'),
        value.len() > 0 ==> !is_ws(value.last()),
    ensures
        !(key + ": "@ + value).contains('\n'),
        (key + ": "@ + value).last() != '\r',
{
    reveal_strlit(": ");
    let l = key + ": "@ + value;
    assert(!l.contains('\n')) by {
        if l.contains('\n') {
            let k = choose|k: int| 0 <= k < l.len() && l[k] == '\n';
            if k < key.len() {
                assert(key[k] == '\n');
            } else if k >= key.len() + 2 {
                assert(value[k - key.len() - 2] == '\n');
            }
        }
    }
    if value.len() == 0 {
        assert(l.last() == ' ');
    } else {
        assert(l.last() == value.last());
        assert(is_ws('\r'));
    }
}

/// The state field text of a task: its state, or empty.
pub open spec fn state_text(task: TaskView) -> Seq<char> {
    match opt_view(task.snapshot.state) {
        Some(v) => v,
        None => Seq::<char>::empty(),
    }
}

/// The fields read from the head of the edit form of a task.
pub open spec fn edit_head_fields(task: TaskView) -> EditorFields {
    EditorFields {
        title: Some(task.snapshot.title@),
        state: Some(state_text(task)),
        labels: Some(list_text(views(task.snapshot.labels@))),
        assignees: Some(list_text(views(task.snapshot.assignees@))),
        description: Seq::<Seq<char>>::empty(),
        in_description: true,
    }
}

/// Facts about the literal lines and field prefixes of the edit form.
proof fn lemma_form_literals()
    ensures
        "# 選択中のタスクを編集します。タイトルは必須です。"@.len() > 0,
        "# 選択中のタスクを編集します。タイトルは必須です。"@[0] == '#',
        "# 空のフィールドは対応する値をクリアします。"@.len() > 0,
        "# 空のフィールドは対応する値をクリアします。"@[0] == '#',
        "# この下で説明を編集してください。空欄で説明を削除します。"@.len() > 0,
        "# この下で説明を編集してください。空欄で説明を削除します。"@[0] == '#',
        "# state 候補: "@.len() > 0,
        "# state 候補: "@[0] == '#',
        "title: "@ == "title"@ + ": "@,
        "state: "@ == "state"@ + ": "@,
        "labels: "@ == "labels"@ + ": "@,
        "assignees: "@ == "assignees"@ + ": "@,
        trim("---"@) == "---"@,
        "---"@.len() > 0,
        "---"@[0] == '-',
        !"title"@.contains('\n'),
        !"state"@.contains('\n'),
        !"labels"@.contains('\n'),
        !"assignees"@.contains('\n'),
        "state"@ != "title"@,
        "labels"@ != "title"@,
        "labels"@ != "state"@,
        "assignees"@ != "title"@,
        "assignees"@ != "state"@,
        "assignees"@ != "labels"@,
{
    reveal_strlit("# 選択中のタスクを編集します。タイトルは必須です。");
    reveal_strlit("# 空のフィールドは対応する値をクリアします。");
    reveal_strlit("# この下で説明を編集してください。空欄で説明を削除します。");
    reveal_strlit("# state 候補: ");
    reveal_strlit("title: ");
    reveal_strlit("title");
    reveal_strlit("state: ");
    reveal_strlit("state");
    reveal_strlit("labels: ");
    reveal_strlit("labels");
    reveal_strlit("assignees: ");
    reveal_strlit("assignees");
    reveal_strlit(": ");
    reveal_strlit("---");
    assert("title: "@ =~= "title"@ + ": "@);
    assert("state: "@ =~= "state"@ + ": "@);
    assert("labels: "@ =~= "labels"@ + ": "@);
    assert("assignees: "@ =~= "assignees"@ + ": "@);
    crate::text::lemma_trim_fixed("---"@);
    let keys = seq!["title"@, "state"@, "labels"@, "assignees"@];
    assert forall|i: int| 0 <= i < 4 implies !(#[trigger] keys[i]).contains('\n') by {
        if keys[i].contains('\n') {
            let k = choose|k: int| 0 <= k < keys[i].len() && keys[i][k] == '\n';
        }
    }
    assert(keys[0] == "title"@ && keys[1] == "state"@ && keys[2] == "labels"@ && keys[3] == "assignees"@);
    assert("state"@[0] != "title"@[0]);
    assert("labels"@.len() != "title"@.len());
    assert("labels"@.len() != "state"@.len());
    assert("assignees"@.len() != "title"@.len());
    assert("assignees"@.len() != "state"@.len());
    assert("assignees"@.len() != "labels"@.len());
}

/// The edit form's lines are its head and description lines.
proof fn lemma_edit_form_lines(task: TaskView, hint: Option<Seq<char>>)
    requires
        edit_form_carries(task, hint),
    ensures
        lines(edit_task_template(task, hint)) == edit_form_head(task, hint) + edit_form_description(task),
{
    lemma_form_literals();
    let s = task.snapshot;
    let all = edit_form_lines(task, hint);
    let d = s.description@;
    lemma_list_text(views(s.labels@));
    lemma_list_text(views(s.assignees@));
    crate::text::lemma_trimmed_ends(s.title@);
    let sv = state_text(task);
    if sv.len() > 0 {
        crate::text::lemma_trimmed_ends(sv);
    }
    lemma_form_line_shape("title"@, s.title@);
    lemma_form_line_shape("state"@, sv);
    lemma_form_line_shape("labels"@, list_text(views(s.labels@)));
    lemma_form_line_shape("assignees"@, list_text(views(s.assignees@)));
    if d.len() > 0 {
        crate::text::lemma_trim_end_len(d);
        crate::text::lemma_join_lines(d);
    }
    let head = edit_form_head(task, hint);
    let desc = edit_form_description(task);
    lemma_literal_lines(hint);
    let c1 = "# 選択中のタスクを編集します。タイトルは必須です。"@;
    let c2 = "# 空のフィールドは対応する値をクリアします。"@;
    let c3 = "# この下で説明を編集してください。空欄で説明を削除します。"@;
    let top = seq![c1, c2, "title"@ + ": "@ + s.title@];
    let hp = match hint {
        Some(h) => seq!["# state 候補: "@ + h],
        None => Seq::<Seq<char>>::empty(),
    };
    let rest = seq![
        "state"@ + ": "@ + sv,
        "labels"@ + ": "@ + list_text(views(s.labels@)),
        "assignees"@ + ": "@ + list_text(views(s.assignees@)),
        "---"@,
        c3,
    ];
    assert(head =~= top + hp + rest);
    assert forall|i: int| 0 <= i < head.len() implies is_clean_line(#[trigger] head[i]) by {
        if i < 3 {
            assert(head[i] == top[i]);
        } else if i < 3 + hp.len() {
            assert(head[i] == hp[i - 3]);
        } else {
            assert(head[i] == rest[i - 3 - hp.len()]);
        }
    }
    assert forall|i: int| 0 <= i < desc.len() implies !(#[trigger] desc[i]).contains('\n') && (desc[i].len()
        > 0 ==> desc[i].last() != '\r') by {
        if d.len() > 0 {
            if desc[i].contains('\n') {
                let k = choose|k: int| 0 <= k < desc[i].len() && desc[i][k] == '\n';
                assert(lines(d)[i][k] != '\n');
            }
            if desc[i].len() > 0 {
                assert(lines(d)[i][desc[i].len() - 1] != '\r');
            }
        }
    }
    assert forall|i: int, k: int| 0 <= i < all.len() && 0 <= k < all[i].len() implies #[trigger] all[i][k]
        != '\n' by {
        if i < head.len() {
            assert(all[i] == head[i]);
            if head[i][k] == '\n' {
                assert(head[i].contains('\n'));
            }
        } else if i < head.len() + desc.len() {
            assert(all[i] == desc[i - head.len()]);
            if desc[i - head.len()][k] == '\n' {
                assert(desc[i - head.len()].contains('\n'));
            }
        }
    }
    assert forall|i: int| 0 <= i < all.len() && (#[trigger] all[i]).len() > 0 implies all[i].last() != '\r' by {
        if i < head.len() {
            assert(all[i] == head[i]);
        } else if i < head.len() + desc.len() {
            assert(all[i] == desc[i - head.len()]);
        }
    }
    crate::text::lemma_lines_of_joined(all);
    assert(all.drop_last() =~= head + desc);
}

/// A form line holds no line break and does not end with a carriage
/// return.
pub open spec fn is_clean_line(l: Seq<char>) -> bool {
    !l.contains('\n') && (l.len() > 0 ==> l.last() != '\r')
}

/// The comment lines of the edit form hold no line break and end with no
/// carriage return.
proof fn lemma_literal_lines(hint: Option<Seq<char>>)
    requires
        match hint {
            Some(h) => !h.contains('\n') && !h.contains('\r'),
            None => true,
        },
    ensures
        is_clean_line("# 選択中のタスクを編集します。タイトルは必須です。"@),
        is_clean_line("# 空のフィールドは対応する値をクリアします。"@),
        is_clean_line("---"@),
        is_clean_line("# この下で説明を編集してください。空欄で説明を削除します。"@),
        hint matches Some(h) ==> is_clean_line("# state 候補: "@ + h),
{
    reveal_strlit("---");
    reveal_strlit("# 選択中のタスクを編集します。タイトルは必須です。");
    reveal_strlit("# 空のフィールドは対応する値をクリアします。");
    reveal_strlit("# state 候補: ");
    reveal_strlit("# この下で説明を編集してください。空欄で説明を削除します。");
    let ls = seq![
        "# 選択中のタスクを編集します。タイトルは必須です。"@,
        "# 空のフィールドは対応する値をクリアします。"@,
        "---"@,
        "# この下で説明を編集してください。空欄で説明を削除します。"@,
    ];
    assert forall|i: int| 0 <= i < 4 implies is_clean_line(#[trigger] ls[i]) by {
        if ls[i].contains('\n') {
            let k = choose|k: int| 0 <= k < ls[i].len() && ls[i][k] == '\n';
        }
    }
    assert(ls[0] == "# 選択中のタスクを編集します。タイトルは必須です。"@);
    assert(ls[1] == "# 空のフィールドは対応する値をクリアします。"@);
    assert(ls[2] == "---"@);
    assert(ls[3] == "# この下で説明を編集してください。空欄で説明を削除します。"@);
    match hint {
        Some(h) => {
            let p = "# state 候補: "@;
            let l = p + h;
            if l.contains('\n') {
                let k = choose|k: int| 0 <= k < l.len() && l[k] == '\n';
                if k >= p.len() {
                    assert(h[k - p.len()] == '\n');
                }
            }
            if h.len() > 0 {
                assert(l.last() == h[h.len() - 1]);
                assert(h.contains(h[h.len() - 1]));
            }
        },
        None => {},
    }
}

/// The first lines of the edit form: two comments, the title, and the hint
/// when given.
pub open spec fn edit_form_top(task: TaskView, hint: Option<Seq<char>>) -> Seq<Seq<char>> {
    seq![
        "# 選択中のタスクを編集します。タイトルは必須です。"@,
        "# 空のフィールドは対応する値をクリアします。"@,
        "title: "@ + task.snapshot.title@,
    ] + match hint {
        Some(h) => seq!["# state 候補: "@ + h],
        None => Seq::<Seq<char>>::empty(),
    }
}

/// Reading the first lines of the edit form gives the title.
proof fn lemma_edit_top_reads(task: TaskView, hint: Option<Seq<char>>)
    requires
        edit_form_carries(task, hint),
    ensures
        fields_of(edit_form_top(task, hint)) == Ok::<EditorFields, Seq<char>>(
            EditorFields { title: Some(task.snapshot.title@), ..no_fields() },
        ),
{
    lemma_form_literals();
    lemma_field_names();
    let title = task.snapshot.title@;
    let c1 = "# 選択中のタスクを編集します。タイトルは必須です。"@;
    let c2 = "# 空のフィールドは対応する値をクリアします。"@;
    let title_line = "title: "@ + title;
    assert(title_line =~= "title"@ + ": "@ + title);
    let st0 = no_fields();
    let st1 = EditorFields { title: Some(title), ..st0 };
    let h0 = Seq::<Seq<char>>::empty();
    assert(fields_of(h0) == Ok::<EditorFields, Seq<char>>(st0));
    lemma_comment_line(st0, c1);
    lemma_fields_push(h0, c1);
    lemma_comment_line(st0, c2);
    lemma_fields_push(h0.push(c1), c2);
    lemma_field_line(st0, "title"@, title);
    lemma_fields_push(h0.push(c1).push(c2), title_line);
    let h3 = h0.push(c1).push(c2).push(title_line);
    assert(fields_of(h3) == Ok::<EditorFields, Seq<char>>(st1));
    match hint {
        Some(h) => {
            assert(("# state 候補: "@ + h)[0] == '#');
            lemma_comment_line(st1, "# state 候補: "@ + h);
            lemma_fields_push(h3, "# state 候補: "@ + h);
            assert(edit_form_top(task, hint) =~= h3.push("# state 候補: "@ + h));
        },
        None => {
            assert(edit_form_top(task, hint) =~= h3);
        },
    }
}

/// Reading the head of the edit form gives the task's fields, ready for
/// the description.
#[verifier::spinoff_prover]
#[verifier::rlimit(60)]
proof fn lemma_edit_head_reads(task: TaskView, hint: Option<Seq<char>>)
    requires
        edit_form_carries(task, hint),
    ensures
        fields_of(edit_form_head(task, hint)) == Ok::<EditorFields, Seq<char>>(edit_head_fields(task)),
{
    lemma_form_literals();
    lemma_field_names();
    lemma_edit_top_reads(task, hint);
    let s = task.snapshot;
    let sv = state_text(task);
    let lj = list_text(views(s.labels@));
    let aj = list_text(views(s.assignees@));
    lemma_list_text(views(s.labels@));
    lemma_list_text(views(s.assignees@));
    assert(trim(sv) == sv) by {
        if sv.len() == 0 {
            assert(sv =~= Seq::<char>::empty());
            assert(trim(Seq::<char>::empty()) =~= Seq::<char>::empty());
        }
    }
    let c3 = "# この下で説明を編集してください。空欄で説明を削除します。"@;
    let state_line = "state: "@ + sv;
    let labels_line = "labels: "@ + lj;
    let assignees_line = "assignees: "@ + aj;
    assert(state_line =~= "state"@ + ": "@ + sv);
    assert(labels_line =~= "labels"@ + ": "@ + lj);
    assert(assignees_line =~= "assignees"@ + ": "@ + aj);
    let st1 = EditorFields { title: Some(s.title@), ..no_fields() };
    let st2 = EditorFields { state: Some(sv), ..st1 };
    let st3 = EditorFields { labels: Some(lj), ..st2 };
    let st4 = EditorFields { assignees: Some(aj), ..st3 };
    let st5 = EditorFields { in_description: true, ..st4 };
    let h4 = edit_form_top(task, hint);
    lemma_field_line(st1, "state"@, sv);
    lemma_fields_push(h4, state_line);
    lemma_field_line(st2, "labels"@, lj);
    lemma_fields_push(h4.push(state_line), labels_line);
    lemma_field_line(st3, "assignees"@, aj);
    lemma_fields_push(h4.push(state_line).push(labels_line), assignees_line);
    let h7 = h4.push(state_line).push(labels_line).push(assignees_line);
    assert(fields_of(h7) == Ok::<EditorFields, Seq<char>>(st4));
    assert(field_step(st4, "---"@) == Ok::<EditorFields, Seq<char>>(st5));
    lemma_fields_push(h7, "---"@);
    lemma_comment_line(st5, c3);
    lemma_fields_push(h7.push("---"@), c3);
    assert(h7.push("---"@).push(c3) =~= edit_form_head(task, hint));
    assert(st5 == edit_head_fields(task));
}

/// Opening the edit form of a task and saving it unchanged reads back the
/// task's own fields, whenever the form can carry them (see
/// `edit_form_carries`): so an unchanged form asks for no change.
pub proof fn lemma_edit_form_round_trip(task: TaskView, hint: Option<Seq<char>>)
    requires
        edit_form_carries(task, hint),
    ensures
        new_task_result(edit_task_template(task, hint)) == Ok::<Option<NewTaskView>, Seq<char>>(
            Some(form_fields(task)),
        ),
{
    reveal_strlit("\n");
    let s = task.snapshot;
    let d = s.description@;
    let desc = edit_form_description(task);
    let head = edit_form_head(task, hint);
    lemma_edit_form_lines(task, hint);
    lemma_edit_head_reads(task, hint);
    if d.len() > 0 {
        crate::text::lemma_trim_end_len(d);
        crate::text::lemma_join_lines(d);
    }
    assert forall|i: int| 0 <= i < desc.len() implies !(trim(#[trigger] desc[i]).len() > 0 && trim(desc[i])[0]
        == '#') by {
        if d.len() == 0 {
            assert(desc[i] =~= Seq::<char>::empty());
            assert(trim(Seq::<char>::empty()) =~= Seq::<char>::empty());
        }
    }
    let st = edit_head_fields(task);
    lemma_fields_description(head, st, desc);
    assert(st.description + desc =~= desc);
    lemma_list_text(views(s.labels@));
    lemma_list_text(views(s.assignees@));
    crate::text::lemma_trimmed_ends(s.title@);
    let sv = state_text(task);
    assert(trim(sv) == sv) by {
        if sv.len() == 0 {
            assert(sv =~= Seq::<char>::empty());
            assert(trim(Seq::<char>::empty()) =~= Seq::<char>::empty());
        }
    }
    if d.len() == 0 {
        assert(join(desc, "\n"@) == Seq::<char>::empty());
        assert(trim(Seq::<char>::empty()) =~= Seq::<char>::empty());
    } else {
        assert(join(desc, "\n"@) == d);
    }
}

/// Saving the edit form of a task without changing it asks for no change:
/// the patch from the task to the fields that the form reads back is empty.
pub proof fn lemma_unchanged_edit_form_patch_empty(
    task: TaskView,
    hint: Option<Seq<char>>,
    data: NewTaskData,
)
    requires
        edit_form_carries(task, hint),
        new_task_result(edit_task_template(task, hint)) == Ok::<Option<NewTaskView>, Seq<char>>(
            Some(data@),
        ),
    ensures
        patch_is_empty(patch_for(task.snapshot, TaskEditData::from_spec(data))),
{
    lemma_edit_form_round_trip(task, hint);
    let e = TaskEditData::from_spec(data);
    assert(e.title@ == task.snapshot.title@);
    assert(opt_view(e.state) == opt_view(task.snapshot.state));
    assert(views(e.labels@) == views(task.snapshot.labels@));
    assert(views(e.assignees@) == views(task.snapshot.assignees@));
    assert(crate::task_patch::desired_description(task.snapshot.description@, opt_view(e.description))
        == task.snapshot.description@);
    lemma_patch_empty_iff_unchanged(task.snapshot, e);
}

/// The field names of the task form are field names.
spec fn is_field_name_literals() -> bool {
    &&& crate::editor::is_field_name("title"@)
    &&& crate::editor::is_field_name("state"@)
    &&& crate::editor::is_field_name("labels"@)
    &&& crate::editor::is_field_name("assignees"@)
}

proof fn lemma_field_names()
    ensures
        is_field_name_literals(),
{
    reveal_strlit("title");
    reveal_strlit("state");
    reveal_strlit("labels");
    reveal_strlit("assignees");
    let names = seq!["title"@, "state"@, "labels"@, "assignees"@];
    assert forall|i: int| 0 <= i < 4 implies crate::editor::is_field_name(#[trigger] names[i]) by {
        let n = names[i];
        crate::text::lemma_trim_fixed(n);
        assert(!n.contains(':')) by {
            if n.contains(':') {
                let k = choose|k: int| 0 <= k < n.len() && n[k] == ':';
            }
        }
    }
    assert(names[0] == "title"@);
    assert(names[1] == "state"@);
    assert(names[2] == "labels"@);
    assert(names[3] == "assignees"@);
}

/// The lines of the edit form before the description: comments, title,
/// the states as hint when given, state, labels, assignees, the `---`
/// line, and a comment.
pub open spec fn edit_form_head(task: TaskView, hint: Option<Seq<char>>) -> Seq<Seq<char>> {
    let s = task.snapshot;
    seq![
        "# 選択中のタスクを編集します。タイトルは必須です。"@,
        "# 空のフィールドは対応する値をクリアします。"@,
        "title: "@ + s.title@,
    ] + match hint {
        Some(h) => seq!["# state 候補: "@ + h],
        None => Seq::<Seq<char>>::empty(),
    } + seq![
        "state: "@ + match opt_view(s.state) {
            Some(v) => v,
            None => Seq::<char>::empty(),
        },
        "labels: "@ + join(views(s.labels@), ", "@),
        "assignees: "@ + join(views(s.assignees@), ", "@),
        "---"@,
        "# この下で説明を編集してください。空欄で説明を削除します。"@,
    ]
}

/// The description lines of the edit form: those of the description, or
/// one empty line.
pub open spec fn edit_form_description(task: TaskView) -> Seq<Seq<char>> {
    if task.snapshot.description@.len() == 0 {
        seq![Seq::<char>::empty()]
    } else {
        lines(task.snapshot.description@)
    }
}

/// The lines of the edit form, ending with an empty one.
pub open spec fn edit_form_lines(task: TaskView, hint: Option<Seq<char>>) -> Seq<Seq<char>> {
    edit_form_head(task, hint) + edit_form_description(task) + seq![Seq::<char>::empty()]
}

/// The task editor's initial text for editing a task.
pub open spec fn edit_task_template(task: TaskView, hint: Option<Seq<char>>) -> Seq<char> {
    join(edit_form_lines(task, hint), "\n"@)
}

/// The task editor's initial text for editing a task.
pub fn edit_task_editor_template(task: &TaskView, state_hint: Option<&str>) -> (r: String)
    ensures
        r@ == edit_task_template(
            *task,
            match state_hint {
                Some(h) => Some(h@),
                None => None,
            },
        ),
{
    let s = &task.snapshot;
    let mut ls: Vec<String> = Vec::new();
    ls.push(owned("# 選択中のタスクを編集します。タイトルは必須です。"));
    ls.push(owned("# 空のフィールドは対応する値をクリアします。"));
    ls.push(concat2("title: ", s.title.as_str()));
    let ghost first = views(ls@);
    match state_hint {
        Some(h) => ls.push(concat2("# state 候補: ", h)),
        None => {},
    }
    let ghost second = views(ls@);
    match &s.state {
        Some(v) => ls.push(concat2("state: ", v.as_str())),
        None => ls.push(owned("state: ")),
    }
    ls.push(concat2("labels: ", join_strings(&s.labels, ", ").as_str()));
    ls.push(concat2("assignees: ", join_strings(&s.assignees, ", ").as_str()));
    ls.push(owned("---"));
    ls.push(owned("# この下で説明を編集してください。空欄で説明を削除します。"));
    let ghost third = views(ls@);
    if s.description.as_str().is_empty() {
        ls.push(String::new());
    } else {
        let chars = crate::text::chars_of(s.description.as_str());
        let mut desc_lines = crate::text::strings_from_chars(&crate::text::lines_chars(&chars));
        let ghost before = views(ls@);
        let ghost dl = views(desc_lines@);
        ls.append(&mut desc_lines);
        assert(views(ls@) =~= before + dl);
    }
    let ghost fourth = views(ls@);
    ls.push(String::new());
    proof {
        let hint_part = match state_hint {
            Some(h) => seq!["# state 候補: "@ + h@],
            None => Seq::<Seq<char>>::empty(),
        };
        assert(first =~= seq![
            "# 選択中のタスクを編集します。タイトルは必須です。"@,
            "# 空のフィールドは対応する値をクリアします。"@,
            "title: "@ + s.title@,
        ]);
        assert("state: "@ + Seq::<char>::empty() =~= "state: "@);
        assert(second =~= first + hint_part);
        assert(third =~= second + seq![
            "state: "@ + match opt_view(s.state) {
                Some(v) => v,
                None => Seq::<char>::empty(),
            },
            "labels: "@ + join(views(s.labels@), ", "@),
            "assignees: "@ + join(views(s.assignees@), ", "@),
            "---"@,
            "# この下で説明を編集してください。空欄で説明を削除します。"@,
        ]);
        if s.description@.len() == 0 {
            assert(fourth =~= third + seq![Seq::<char>::empty()]);
        } else {
            assert(fourth =~= third + lines(s.description@));
        }
        assert(views(ls@) =~= fourth.push(Seq::<char>::empty()));
        let spec_parts = seq![
            "# 選択中のタスクを編集します。タイトルは必須です。"@,
            "# 空のフィールドは対応する値をクリアします。"@,
            "title: "@ + s.title@,
        ] + hint_part + seq![
            "state: "@ + match opt_view(s.state) {
                Some(v) => v,
                None => Seq::<char>::empty(),
            },
            "labels: "@ + join(views(s.labels@), ", "@),
            "assignees: "@ + join(views(s.assignees@), ", "@),
            "---"@,
            "# この下で説明を編集してください。空欄で説明を削除します。"@,
        ] + if s.description@.len() == 0 {
            seq![Seq::<char>::empty()]
        } else {
            lines(s.description@)
        } + seq![Seq::<char>::empty()];
        assert(views(ls@) =~= spec_parts);
    }
    join_strings(&ls, "\n")
}


/// The side of a popup on a screen side of `side` cells: four fifths of
/// it, at least `least`, at most the whole side.
pub open spec fn popup_side(side: int, least: int) -> int {
    let a = side * 4 / 5;
    let b = if a < least {
        least
    } else {
        a
    };
    if b > side {
        side
    } else {
        b
    }
}

/// The area of the comment and description viewers on a screen of
/// `width` × `height` cells, as `(x, y, width, height)`: four fifths of
/// each side, at least 40 columns and 10 rows but no more than the
/// screen, centred.
pub fn viewer_popup_area(width: u16, height: u16) -> (r: (u16, u16, u16, u16))
    requires
        width * 4 <= u16::MAX,
        height * 4 <= u16::MAX,
    ensures
        r.2 == popup_side(width as int, 40),
        r.3 == popup_side(height as int, 10),
        r.0 == (width - r.2) / 2,
        r.1 == (height - r.3) / 2,
{
    let mut w: u16 = width * 4 / 5;
    if w < 40 {
        w = 40;
    }
    if w > width {
        w = width;
    }
    let mut h: u16 = height * 4 / 5;
    if h < 10 {
        h = 10;
    }
    if h > height {
        h = height;
    }
    ((width - w) / 2, (height - h) / 2, w, h)
}

} // verus!
