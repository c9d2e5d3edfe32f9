//! Character-level text model and the string helpers built on it.
//!
//! Every string is specified through its view, a `Seq<char>`.  The spec
//! functions here (`trim`, `split_by`, `join`, `lines`, ...) state what the
//! corresponding `str` operations mean, and the executable helpers are
//! proved against them.
use vstd::prelude::*;

verus! {

broadcast use vstd::string::group_string_axioms;

// ---------------------------------------------------------------------------
// Specification
// ---------------------------------------------------------------------------

/// The Unicode `White_Space` property (PropList.txt), which is what
/// `char::is_whitespace` and therefore `str::trim` test.
pub open spec fn is_ws(c: char) -> bool {
    let u = c as u32;
    ||| 0x09 <= u <= 0x0d
    ||| u == 0x20
    ||| u == 0x85
    ||| u == 0xa0
    ||| u == 0x1680
    ||| 0x2000 <= u <= 0x200a
    ||| u == 0x2028
    ||| u == 0x2029
    ||| u == 0x202f
    ||| u == 0x205f
    ||| u == 0x3000
}

/// `s` with its leading whitespace removed.
pub open spec fn trim_start(s: Seq<char>) -> Seq<char>
    decreases s.len(),
{
    if s.len() > 0 && is_ws(s[0]) {
        trim_start(s.drop_first())
    } else {
        s
    }
}

/// `s` with its trailing whitespace removed.
pub open spec fn trim_end(s: Seq<char>) -> Seq<char>
    decreases s.len(),
{
    if s.len() > 0 && is_ws(s.last()) {
        trim_end(s.drop_last())
    } else {
        s
    }
}

/// `s` with leading and trailing whitespace removed.
pub open spec fn trim(s: Seq<char>) -> Seq<char> {
    trim_end(trim_start(s))
}

/// The pieces of `s` between the characters that satisfy `is_sep`; there is
/// always one piece more than there are separators (`"a,,b"` gives
/// `["a", "", "b"]`, and the empty string gives `[""]`).
pub open spec fn split_by(s: Seq<char>, is_sep: spec_fn(char) -> bool) -> Seq<Seq<char>>
    decreases s.len(),
{
    if s.len() == 0 {
        seq![Seq::<char>::empty()]
    } else {
        let pieces = split_by(s.drop_last(), is_sep);
        if is_sep(s.last()) {
            pieces.push(Seq::<char>::empty())
        } else {
            pieces.update(pieces.len() - 1, pieces.last().push(s.last()))
        }
    }
}

/// The predicate that accepts exactly `sep`.
pub open spec fn eq_pred(sep: char) -> spec_fn(char) -> bool {
    |c: char| c == sep
}

/// The predicate that accepts whitespace.
pub open spec fn ws_pred() -> spec_fn(char) -> bool {
    |c: char| is_ws(c)
}

/// The pieces of `s` between occurrences of `sep`.
pub open spec fn split_on(s: Seq<char>, sep: char) -> Seq<Seq<char>> {
    split_by(s, eq_pred(sep))
}

/// The pieces of `s` between whitespace characters.
pub open spec fn split_on_ws(s: Seq<char>) -> Seq<Seq<char>> {
    split_by(s, ws_pred())
}

/// `parts` joined with `sep` between consecutive parts.
pub open spec fn join(parts: Seq<Seq<char>>, sep: Seq<char>) -> Seq<char>
    decreases parts.len(),
{
    if parts.len() == 0 {
        Seq::<char>::empty()
    } else if parts.len() == 1 {
        parts[0]
    } else {
        join(parts.drop_last(), sep) + sep + parts.last()
    }
}

/// The non-empty parts, in order.
pub open spec fn drop_empty(parts: Seq<Seq<char>>) -> Seq<Seq<char>>
    decreases parts.len(),
{
    if parts.len() == 0 {
        parts
    } else if parts.last().len() == 0 {
        drop_empty(parts.drop_last())
    } else {
        drop_empty(parts.drop_last()).push(parts.last())
    }
}

/// Every part trimmed.
pub open spec fn trim_all(parts: Seq<Seq<char>>) -> Seq<Seq<char>> {
    parts.map_values(|p: Seq<char>| trim(p))
}

/// `s` without one trailing carriage return, if it has one.
pub open spec fn strip_cr(s: Seq<char>) -> Seq<char> {
    if s.len() > 0 && s.last() == '\r' {
        s.drop_last()
    } else {
        s
    }
}

/// The lines of `s` as `str::lines` yields them: split at `'\n'`, without a
/// final empty line after a trailing newline, each without a trailing `'\r'`.
pub open spec fn lines(s: Seq<char>) -> Seq<Seq<char>> {
    let pieces = split_on(s, '\n');
    let kept = if pieces.last().len() == 0 {
        pieces.drop_last()
    } else {
        pieces
    };
    kept.map_values(|p: Seq<char>| strip_cr(p))
}

/// The whitespace-separated words of `s`.
pub open spec fn words(s: Seq<char>) -> Seq<Seq<char>> {
    drop_empty(split_on_ws(s))
}

/// `prefix` is a prefix of `s`.
pub open spec fn starts_with(s: Seq<char>, prefix: Seq<char>) -> bool {
    prefix.len() <= s.len() && s.take(prefix.len() as int) == prefix
}

/// `s` with every occurrence of `from` replaced by `to`.
pub open spec fn replace_char(s: Seq<char>, from: char, to: char) -> Seq<char> {
    s.map_values(|c: char| if c == from { to } else { c })
}

/// The views of a sequence of character vectors.
pub open spec fn cviews(v: Seq<Vec<char>>) -> Seq<Seq<char>> {
    v.map_values(|x: Vec<char>| x@)
}

/// The views of a sequence of strings.
pub open spec fn views(v: Seq<String>) -> Seq<Seq<char>> {
    v.map_values(|s: String| s@)
}

// ---------------------------------------------------------------------------
// Lemmas
// ---------------------------------------------------------------------------

proof fn lemma_trim_start_skip(s: Seq<char>, i: int)
    requires
        0 <= i <= s.len(),
        forall|k: int| 0 <= k < i ==> is_ws(#[trigger] s[k]),
    ensures
        trim_start(s) == trim_start(s.skip(i)),
    decreases i,
{
    if i > 0 {
        assert(is_ws(s[0]));
        assert(trim_start(s) == trim_start(s.drop_first()));
        assert forall|k: int| 0 <= k < i - 1 implies is_ws(#[trigger] s.drop_first()[k]) by {
            assert(s.drop_first()[k] == s[k + 1]);
        }
        lemma_trim_start_skip(s.drop_first(), i - 1);
        assert(s.drop_first().skip(i - 1) =~= s.skip(i));
    } else {
        assert(s.skip(0) =~= s);
    }
}

proof fn lemma_trim_end_take(s: Seq<char>, j: int)
    requires
        0 <= j <= s.len(),
        forall|k: int| j <= k < s.len() ==> is_ws(#[trigger] s[k]),
    ensures
        trim_end(s) == trim_end(s.take(j)),
    decreases s.len() - j,
{
    if j < s.len() {
        lemma_trim_end_take(s.drop_last(), j);
        assert(s.drop_last().take(j) =~= s.take(j));
    } else {
        assert(s.take(j) =~= s);
    }
}

/// Splitting a prefix one character longer extends the split of the prefix.
pub proof fn lemma_split_step(s: Seq<char>, i: int, is_sep: spec_fn(char) -> bool)
    requires
        0 <= i < s.len(),
    ensures
        split_by(s.take(i + 1), is_sep) == if is_sep(s[i]) {
            split_by(s.take(i), is_sep).push(Seq::<char>::empty())
        } else {
            split_by(s.take(i), is_sep).update(
                split_by(s.take(i), is_sep).len() - 1,
                split_by(s.take(i), is_sep).last().push(s[i]),
            )
        },
{
    assert(s.take(i + 1).drop_last() =~= s.take(i));
    assert(s.take(i + 1).last() == s[i]);
}

/// A split always has at least one piece.
pub proof fn lemma_split_nonempty(s: Seq<char>, is_sep: spec_fn(char) -> bool)
    ensures
        split_by(s, is_sep).len() >= 1,
    decreases s.len(),
{
    if s.len() > 0 {
        lemma_split_nonempty(s.drop_last(), is_sep);
    }
}

/// Joining a sequence that has one more part extends the join.
pub proof fn lemma_join_push(parts: Seq<Seq<char>>, p: Seq<char>, sep: Seq<char>)
    ensures
        join(parts.push(p), sep) == if parts.len() == 0 {
            p
        } else {
            join(parts, sep) + sep + p
        },
{
    assert(parts.push(p).drop_last() =~= parts);
}

/// Joining the pieces of a split with the separator gives back the input:
/// splitting loses nothing but the separators.
pub proof fn lemma_join_split(s: Seq<char>, sep: char)
    ensures
        join(split_on(s, sep), seq![sep]) == s,
    decreases s.len(),
{
    let is_sep = eq_pred(sep);
    if s.len() > 0 {
        let t = s.drop_last();
        lemma_join_split(t, sep);
        lemma_split_nonempty(t, is_sep);
        let pieces = split_by(t, is_sep);
        if s.last() == sep {
            lemma_join_push(pieces, Seq::<char>::empty(), seq![sep]);
            assert(s =~= t + seq![sep] + Seq::<char>::empty());
        } else {
            let last = pieces.last().push(s.last());
            let upd = pieces.update(pieces.len() - 1, last);
            assert(upd =~= pieces.drop_last().push(last));
            lemma_join_push(pieces.drop_last(), last, seq![sep]);
            lemma_join_push(pieces.drop_last(), pieces.last(), seq![sep]);
            assert(pieces.drop_last().push(pieces.last()) =~= pieces);
            assert(s =~= t.push(s.last()));
            if pieces.len() == 1 {
                assert(join(pieces, seq![sep]) == pieces[0]);
                assert(s =~= pieces.last().push(s.last()));
            } else {
                assert(join(pieces, seq![sep]) == join(pieces.drop_last(), seq![sep]) + seq![sep]
                    + pieces.last());
                assert(s =~= join(pieces.drop_last(), seq![sep]) + seq![sep] + last);
            }
        }
    }
}

/// A text without separators is a single piece.
pub proof fn lemma_split_no_sep(t: Seq<char>, is_sep: spec_fn(char) -> bool)
    requires
        forall|k: int| 0 <= k < t.len() ==> !is_sep(#[trigger] t[k]),
    ensures
        split_by(t, is_sep) == seq![t],
    decreases t.len(),
{
    if t.len() > 0 {
        lemma_split_no_sep(t.drop_last(), is_sep);
        assert(!is_sep(t[t.len() - 1]));
        assert(t.drop_last().push(t.last()) =~= t);
        assert(split_by(t, is_sep) =~= seq![t]);
    } else {
        assert(t =~= Seq::<char>::empty());
    }
}

/// Splitting `s`, a separator, and a text without separators gives the
/// pieces of `s` followed by that text.
pub proof fn lemma_split_append(s: Seq<char>, c: char, t: Seq<char>, is_sep: spec_fn(char) -> bool)
    requires
        is_sep(c),
        forall|k: int| 0 <= k < t.len() ==> !is_sep(#[trigger] t[k]),
    ensures
        split_by(s + seq![c] + t, is_sep) == split_by(s, is_sep).push(t),
    decreases t.len(),
{
    let u = s + seq![c] + t;
    if t.len() == 0 {
        assert(u.drop_last() =~= s);
        assert(u.last() == c);
        assert(t =~= Seq::<char>::empty());
    } else {
        lemma_split_append(s, c, t.drop_last(), is_sep);
        assert(u.drop_last() =~= s + seq![c] + t.drop_last());
        assert(u.last() == t.last());
        assert(!is_sep(t[t.len() - 1]));
        assert(t.drop_last().push(t.last()) =~= t);
        assert(split_by(u, is_sep) =~= split_by(s, is_sep).push(t));
    }
}

/// The pieces of parts joined by a separator character followed by `rest`:
/// the first part, then each other part after `rest`.
pub open spec fn joined_pieces(parts: Seq<Seq<char>>, rest: Seq<char>) -> Seq<Seq<char>> {
    Seq::new(parts.len(), |i: int| if i == 0 { parts[0] } else { rest + parts[i] })
}

/// Splitting parts joined by a separator character followed by `rest` gives
/// the parts back, each but the first after `rest`, when neither the parts
/// nor `rest` hold a separator.
pub proof fn lemma_split_join(parts: Seq<Seq<char>>, c: char, rest: Seq<char>, is_sep: spec_fn(char) -> bool)
    requires
        parts.len() > 0,
        is_sep(c),
        forall|k: int| 0 <= k < rest.len() ==> !is_sep(#[trigger] rest[k]),
        forall|i: int, k: int| 0 <= i < parts.len() && 0 <= k < parts[i].len() ==> !is_sep(
            #[trigger] parts[i][k],
        ),
    ensures
        split_by(join(parts, seq![c] + rest), is_sep) == joined_pieces(parts, rest),
    decreases parts.len(),
{
    if parts.len() == 1 {
        assert forall|k: int| 0 <= k < parts[0].len() implies !is_sep(#[trigger] parts[0][k]) by {
            assert(!is_sep(parts[0][k]));
        }
        lemma_split_no_sep(parts[0], is_sep);
        assert(joined_pieces(parts, rest) =~= seq![parts[0]]);
    } else {
        let init = parts.drop_last();
        assert forall|i: int, k: int| 0 <= i < init.len() && 0 <= k < init[i].len() implies !is_sep(
            #[trigger] init[i][k],
        ) by {
            assert(init[i] == parts[i]);
        }
        lemma_split_join(init, c, rest, is_sep);
        let j = join(init, seq![c] + rest);
        let last = parts.last();
        assert(join(parts, seq![c] + rest) =~= j + seq![c] + (rest + last));
        assert forall|k: int| 0 <= k < (rest + last).len() implies !is_sep(#[trigger] (rest + last)[k]) by {
            if k < rest.len() {
                assert((rest + last)[k] == rest[k]);
            } else {
                assert((rest + last)[k] == parts[parts.len() - 1][k - rest.len()]);
            }
        }
        lemma_split_append(j, c, rest + last, is_sep);
        assert(joined_pieces(parts, rest) =~= joined_pieces(init, rest).push(rest + last));
    }
}

/// Dropping the empty parts of parts that are all non-empty keeps them all.
pub proof fn lemma_drop_empty_none(parts: Seq<Seq<char>>)
    requires
        forall|i: int| 0 <= i < parts.len() ==> (#[trigger] parts[i]).len() > 0,
    ensures
        drop_empty(parts) == parts,
    decreases parts.len(),
{
    if parts.len() > 0 {
        lemma_drop_empty_none(parts.drop_last());
        assert(parts[parts.len() - 1].len() > 0);
        assert(parts.drop_last().push(parts.last()) =~= parts);
    }
}

/// A join of non-empty parts starts with the first part's first character
/// and ends with the last part's last character.
pub proof fn lemma_join_ends(parts: Seq<Seq<char>>, sep: Seq<char>)
    requires
        parts.len() > 0,
        forall|i: int| 0 <= i < parts.len() ==> (#[trigger] parts[i]).len() > 0,
    ensures
        join(parts, sep).len() > 0,
        join(parts, sep)[0] == parts[0][0],
        join(parts, sep)[join(parts, sep).len() - 1] == parts.last()[parts.last().len() - 1],
    decreases parts.len(),
{
    if parts.len() > 1 {
        let init = parts.drop_last();
        assert forall|i: int| 0 <= i < init.len() implies (#[trigger] init[i]).len() > 0 by {
            assert(init[i] == parts[i]);
        }
        lemma_join_ends(init, sep);
        let j = join(init, sep);
        let last = parts.last();
        assert(parts[parts.len() - 1].len() > 0);
        assert((j + sep + last)[0] == j[0]);
        assert((j + sep + last)[(j + sep + last).len() - 1] == last[last.len() - 1]);
    } else {
        assert(parts[0].len() > 0);
    }
}

/// Trimming the start never lengthens a text, shortens one that starts with
/// whitespace, and keeps one whose length it keeps.
pub proof fn lemma_trim_start_len(s: Seq<char>)
    ensures
        trim_start(s).len() <= s.len(),
        s.len() > 0 && is_ws(s[0]) ==> trim_start(s).len() < s.len(),
        trim_start(s).len() == s.len() ==> trim_start(s) == s,
    decreases s.len(),
{
    if s.len() > 0 && is_ws(s[0]) {
        lemma_trim_start_len(s.drop_first());
    }
}

/// Trimming the end never lengthens a text, and shortens one that ends
/// with whitespace.
pub proof fn lemma_trim_end_len(s: Seq<char>)
    ensures
        trim_end(s).len() <= s.len(),
        s.len() > 0 && is_ws(s[s.len() - 1]) ==> trim_end(s).len() < s.len(),
    decreases s.len(),
{
    if s.len() > 0 && is_ws(s.last()) {
        lemma_trim_end_len(s.drop_last());
    }
}

/// A non-empty text that is its own trim neither starts nor ends with
/// whitespace.
pub proof fn lemma_trimmed_ends(s: Seq<char>)
    requires
        s.len() > 0,
        trim(s) == s,
    ensures
        !is_ws(s[0]),
        !is_ws(s[s.len() - 1]),
{
    lemma_trim_start_len(s);
    let t = trim_start(s);
    lemma_trim_end_len(t);
    if t.len() == s.len() {
        assert(t == s);
    }
}

/// Trimming the end keeps a prefix, and keeps at least the first character
/// when that is not whitespace.
pub proof fn lemma_trim_end_prefix(s: Seq<char>)
    ensures
        trim_end(s).len() <= s.len(),
        trim_end(s) == s.take(trim_end(s).len() as int),
        s.len() > 0 && !is_ws(s[0]) ==> trim_end(s).len() >= 1,
    decreases s.len(),
{
    if s.len() > 0 && is_ws(s.last()) {
        lemma_trim_end_prefix(s.drop_last());
        let t = trim_end(s.drop_last());
        assert(s.drop_last().take(t.len() as int) =~= s.take(t.len() as int));
        if s.len() == 1 {
            assert(s.last() == s[0]);
        }
    } else {
        assert(s.take(s.len() as int) =~= s);
    }
}

/// A text that starts with a character other than whitespace keeps it as
/// the first character of its trim.
pub proof fn lemma_trim_keeps_first(s: Seq<char>)
    requires
        s.len() > 0,
        !is_ws(s[0]),
    ensures
        trim(s).len() > 0,
        trim(s)[0] == s[0],
{
    assert(trim_start(s) == s);
    lemma_trim_end_prefix(s);
}

/// Every character of a piece of a split is no separator and occurs in the
/// text.
pub proof fn lemma_split_pieces_from(s: Seq<char>, is_sep: spec_fn(char) -> bool)
    ensures
        forall|i: int, k: int|
            0 <= i < split_by(s, is_sep).len() && 0 <= k < split_by(s, is_sep)[i].len() ==> !is_sep(
                #[trigger] split_by(s, is_sep)[i][k],
            ) && s.contains(split_by(s, is_sep)[i][k]),
    decreases s.len(),
{
    if s.len() > 0 {
        let t = s.drop_last();
        lemma_split_pieces_from(t, is_sep);
        lemma_split_nonempty(t, is_sep);
        let pieces = split_by(t, is_sep);
        let r = split_by(s, is_sep);
        assert forall|i: int, k: int| 0 <= i < r.len() && 0 <= k < r[i].len() implies !is_sep(
            #[trigger] r[i][k],
        ) && s.contains(r[i][k]) by {
            if is_sep(s.last()) {
                if i < pieces.len() {
                    assert(r[i] == pieces[i]);
                    let j = choose|j: int| 0 <= j < t.len() && t[j] == pieces[i][k];
                    assert(s[j] == t[j]);
                }
            } else {
                if i < pieces.len() - 1 {
                    assert(r[i] == pieces[i]);
                    let j = choose|j: int| 0 <= j < t.len() && t[j] == pieces[i][k];
                    assert(s[j] == t[j]);
                } else {
                    assert(r[i] == pieces.last().push(s.last()));
                    if k < pieces.last().len() {
                        assert(r[i][k] == pieces[pieces.len() - 1][k]);
                        let j = choose|j: int| 0 <= j < t.len() && t[j] == pieces[pieces.len() - 1][k];
                        assert(s[j] == t[j]);
                    } else {
                        assert(r[i][k] == s[s.len() - 1]);
                    }
                }
            }
        }
    }
}

/// The lines of lines joined by line breaks are those lines, when none
/// holds a line break or ends with a carriage return and the last one,
/// which ends the text, is empty.
pub proof fn lemma_lines_of_joined(ls: Seq<Seq<char>>)
    requires
        ls.len() > 0,
        ls.last().len() == 0,
        forall|i: int, k: int| 0 <= i < ls.len() && 0 <= k < ls[i].len() ==> #[trigger] ls[i][k] != '\n',
        forall|i: int| 0 <= i < ls.len() && (#[trigger] ls[i]).len() > 0 ==> ls[i].last() != '\r',
    ensures
        lines(join(ls, "\n"@)) == ls.drop_last(),
{
    reveal_strlit("\n");
    let is_sep = eq_pred('\n');
    assert("\n"@ =~= seq!['\n'] + Seq::<char>::empty());
    assert forall|i: int, k: int| 0 <= i < ls.len() && 0 <= k < ls[i].len() implies !is_sep(
        #[trigger] ls[i][k],
    ) by {
        assert(ls[i][k] != '\n');
    }
    lemma_split_join(ls, '\n', Seq::<char>::empty(), is_sep);
    let pieces = split_on(join(ls, "\n"@), '\n');
    assert(pieces =~= ls);
    assert(pieces.last().len() == 0);
    let kept = pieces.drop_last();
    assert forall|i: int| 0 <= i < kept.len() implies strip_cr(#[trigger] kept[i]) == kept[i] by {
        assert(kept[i] == ls[i]);
    }
    assert(kept.map_values(|p: Seq<char>| strip_cr(p)) =~= ls.drop_last());
}

/// A text that does not end with a line break and holds no carriage return
/// is its lines joined by line breaks, and none of its lines holds a line
/// break or a carriage return.
pub proof fn lemma_join_lines(d: Seq<char>)
    requires
        d.len() > 0,
        d.last() != '\n',
        !d.contains('\r'),
    ensures
        join(lines(d), "\n"@) == d,
        forall|i: int, k: int| 0 <= i < lines(d).len() && 0 <= k < lines(d)[i].len() ==> #[trigger] lines(d)[i][k]
            != '\n' && lines(d)[i][k] != '\r',
{
    reveal_strlit("\n");
    let is_sep = eq_pred('\n');
    let pieces = split_on(d, '\n');
    lemma_split_pieces_from(d, is_sep);
    lemma_split_nonempty(d.drop_last(), is_sep);
    assert(pieces.last().len() > 0);
    assert forall|i: int| 0 <= i < pieces.len() implies strip_cr(#[trigger] pieces[i]) == pieces[i] by {
        if pieces[i].len() > 0 {
            let k = pieces[i].len() - 1;
            assert(d.contains(pieces[i][k]));
        }
    }
    assert(lines(d) =~= pieces);
    assert("\n"@ =~= seq!['\n']);
    lemma_join_split(d, '\n');
    assert forall|i: int, k: int| 0 <= i < lines(d).len() && 0 <= k < lines(d)[i].len() implies #[trigger] lines(
        d,
    )[i][k] != '\n' && lines(d)[i][k] != '\r' by {
        assert(lines(d)[i] == pieces[i]);
        assert(d.contains(pieces[i][k]));
    }
}

/// A join holds a character only when a part or the separator holds it.
pub proof fn lemma_join_free(parts: Seq<Seq<char>>, sep: Seq<char>, c: char)
    requires
        !sep.contains(c),
        forall|i: int| 0 <= i < parts.len() ==> !(#[trigger] parts[i]).contains(c),
    ensures
        !join(parts, sep).contains(c),
    decreases parts.len(),
{
    if parts.len() > 1 {
        let init = parts.drop_last();
        assert forall|i: int| 0 <= i < init.len() implies !(#[trigger] init[i]).contains(c) by {
            assert(init[i] == parts[i]);
        }
        lemma_join_free(init, sep, c);
        let j = join(init, sep);
        let last = parts.last();
        assert(!parts[parts.len() - 1].contains(c));
        let all = j + sep + last;
        assert(!all.contains(c)) by {
            if all.contains(c) {
                let k = choose|k: int| 0 <= k < all.len() && all[k] == c;
                if k < j.len() {
                    assert(j[k] == c);
                } else if k < j.len() + sep.len() {
                    assert(sep[k - j.len()] == c);
                } else {
                    assert(last[k - j.len() - sep.len()] == c);
                }
            }
        }
    } else if parts.len() == 1 {
        assert(!parts[0].contains(c));
    }
}

/// A text that neither starts nor ends with whitespace is its own trim.
pub proof fn lemma_trim_fixed(s: Seq<char>)
    requires
        s.len() > 0,
        !is_ws(s[0]),
        !is_ws(s[s.len() - 1]),
    ensures
        trim(s) == s,
{
    assert(trim_start(s) == s);
    assert(trim_end(s) == s);
}

/// A leading blank does not change a trimmed text.
pub proof fn lemma_trim_after_blank(p: Seq<char>)
    ensures
        trim(" "@ + p) == trim(p),
{
    reveal_strlit(" ");
    let s = " "@ + p;
    assert(is_ws(s[0]));
    assert(s.drop_first() =~= p);
}

/// The parts of `drop_empty` are exactly the non-empty parts.
pub proof fn lemma_drop_empty_parts(parts: Seq<Seq<char>>)
    ensures
        forall|i: int| 0 <= i < drop_empty(parts).len() ==> (#[trigger] drop_empty(parts)[i]).len()
            > 0,
        forall|i: int| 0 <= i < drop_empty(parts).len() ==> parts.contains(
            #[trigger] drop_empty(parts)[i],
        ),
        drop_empty(parts).len() <= parts.len(),
    decreases parts.len(),
{
    if parts.len() > 0 {
        lemma_drop_empty_parts(parts.drop_last());
        let d = drop_empty(parts.drop_last());
        assert forall|i: int| 0 <= i < d.len() implies parts.contains(#[trigger] d[i]) by {
            let k = choose|k: int| 0 <= k < parts.drop_last().len() && parts.drop_last()[k] == d[i];
            assert(parts[k] == d[i]);
        }
        if parts.last().len() > 0 {
            assert(parts[parts.len() - 1] == parts.last());
        }
    }
}

// ---------------------------------------------------------------------------
// Executable helpers
// ---------------------------------------------------------------------------

/// Collects the characters of a string slice into a vector.
pub fn chars_of(s: &str) -> (out: Vec<char>)
    ensures
        out@ == s@,
{
    let mut out: Vec<char> = Vec::new();
    for c in it: s.chars()
        invariant
            out@ == it.seq().take(it.index() as int),
            it.seq() == s@,
    {
        out.push(c);
    }
    out
}

/// Appends one character to a string.
#[verifier::external_body]
pub fn push_char(s: &mut String, c: char)
    ensures
        final(s)@ == old(s)@.push(c),
{
    s.push(c);
}

/// Appends a string slice to a string.
#[verifier::external_body]
pub fn push_str(s: &mut String, t: &str)
    ensures
        final(s)@ == old(s)@ + t@,
{
    s.push_str(t);
}

/// Compares two string slices for equality.
#[verifier::external_body]
pub fn str_eq(a: &str, b: &str) -> (r: bool)
    ensures
        r == (a@ == b@),
{
    a == b
}

/// Builds a string holding exactly the given characters.
pub fn string_from_chars(chars: &Vec<char>) -> (out: String)
    ensures
        out@ == chars@,
{
    let mut out = String::new();
    for i in 0..chars.len()
        invariant
            out@ == chars@.take(i as int),
    {
        push_char(&mut out, chars[i]);
        assert(chars@.take(i + 1) == chars@.take(i as int).push(chars@[i as int]));
    }
    assert(chars@.take(chars.len() as int) == chars@);
    out
}

/// Copies a string slice into an owned string.
pub fn owned(s: &str) -> (out: String)
    ensures
        out@ == s@,
{
    String::from_str(s)
}

/// Concatenates two string slices.
pub fn concat2(a: &str, b: &str) -> (out: String)
    ensures
        out@ == a@ + b@,
{
    let mut out = owned(a);
    push_str(&mut out, b);
    out
}

/// Concatenates three string slices.
pub fn concat3(a: &str, b: &str, c: &str) -> (out: String)
    ensures
        out@ == a@ + b@ + c@,
{
    let mut out = concat2(a, b);
    push_str(&mut out, c);
    out
}

/// Whether `c` has the Unicode `White_Space` property.
pub fn is_whitespace(c: char) -> (r: bool)
    ensures
        r == is_ws(c),
{
    let u = c as u32;
    (0x09 <= u && u <= 0x0d) || u == 0x20 || u == 0x85 || u == 0xa0 || u == 0x1680 || (0x2000
        <= u && u <= 0x200a) || u == 0x2028 || u == 0x2029 || u == 0x202f || u == 0x205f || u
        == 0x3000
}

/// The characters of `s` between `from` and `to`.
pub fn slice_chars(s: &Vec<char>, from: usize, to: usize) -> (out: Vec<char>)
    requires
        from <= to <= s.len(),
    ensures
        out@ == s@.subrange(from as int, to as int),
{
    let mut out: Vec<char> = Vec::new();
    let mut i = from;
    while i < to
        invariant
            from <= i <= to <= s.len(),
            out@ == s@.subrange(from as int, i as int),
        decreases to - i,
    {
        out.push(s[i]);
        assert(s@.subrange(from as int, i + 1) == s@.subrange(from as int, i as int).push(s@[i as int]));
        i += 1;
    }
    out
}

/// `s` with leading and trailing whitespace removed.
pub fn trim_chars(s: &Vec<char>) -> (out: Vec<char>)
    ensures
        out@ == trim(s@),
{
    let mut i: usize = 0;
    while i < s.len() && is_whitespace(s[i])
        invariant
            i <= s.len(),
            forall|k: int| 0 <= k < i ==> is_ws(#[trigger] s@[k]),
        decreases s.len() - i,
    {
        i += 1;
    }
    proof {
        lemma_trim_start_skip(s@, i as int);
        if i < s.len() {
            assert(s@.skip(i as int)[0] == s@[i as int]);
        }
    }
    let ghost t = s@.skip(i as int);
    assert(trim_start(s@) == t);
    let mut j: usize = s.len();
    while j > i && is_whitespace(s[j - 1])
        invariant
            i <= j <= s.len(),
            forall|k: int| j <= k < s.len() ==> is_ws(#[trigger] s@[k]),
        decreases j,
    {
        j -= 1;
    }
    proof {
        let jj = j - i;
        assert forall|k: int| jj <= k < t.len() implies is_ws(#[trigger] t[k]) by {
            assert(t[k] == s@[k + i]);
        }
        lemma_trim_end_take(t, jj);
        if jj > 0 {
            assert(t.take(jj).last() == s@[j - 1]);
        }
        assert(t.take(jj) =~= s@.subrange(i as int, j as int));
    }
    slice_chars(s, i, j)
}

/// Trims a string slice.
pub fn trim_str(s: &str) -> (out: String)
    ensures
        out@ == trim(s@),
{
    let c = chars_of(s);
    let t = trim_chars(&c);
    string_from_chars(&t)
}

/// Splits characters at every character that `is_sep` accepts.
fn split_chars_by(s: &Vec<char>, sep: char, on_ws: bool) -> (out: Vec<Vec<char>>)
    ensures
        on_ws ==> cviews(out@) == split_on_ws(s@),
        !on_ws ==> cviews(out@) == split_on(s@, sep),
{
    let ghost is_sep: spec_fn(char) -> bool = if on_ws {
        ws_pred()
    } else {
        eq_pred(sep)
    };
    let mut pieces: Vec<Vec<char>> = Vec::new();
    let mut cur: Vec<char> = Vec::new();
    assert(s@.take(0) =~= Seq::<char>::empty());
    assert(cviews(pieces@).push(cur@) =~= split_by(s@.take(0), is_sep));
    for i in 0..s.len()
        invariant
            cviews(pieces@).push(cur@) == split_by(s@.take(i as int), is_sep),
            is_sep == (if on_ws {
                ws_pred()
            } else {
                eq_pred(sep)
            }),
    {
        let c = s[i];
        proof {
            lemma_split_step(s@, i as int, is_sep);
        }
        let hit = if on_ws {
            is_whitespace(c)
        } else {
            c == sep
        };
        assert(hit == is_sep(c));
        if hit {
            let ghost before = cviews(pieces@);
            let mut done: Vec<char> = Vec::new();
            std::mem::swap(&mut cur, &mut done);
            pieces.push(done);
            assert(cviews(pieces@) =~= before.push(done@));
            assert(cviews(pieces@).push(cur@) =~= split_by(s@.take(i + 1), is_sep));
        } else {
            let ghost before = cviews(pieces@);
            cur.push(c);
            assert(cviews(pieces@).push(cur@) =~= split_by(s@.take(i + 1), is_sep));
        }
    }
    assert(s@.take(s.len() as int) =~= s@);
    let ghost before = cviews(pieces@);
    pieces.push(cur);
    assert(cviews(pieces@) =~= before.push(pieces@[pieces.len() - 1]@));
    pieces
}

/// Splits characters at every occurrence of `sep`.
pub fn split_chars(s: &Vec<char>, sep: char) -> (out: Vec<Vec<char>>)
    ensures
        cviews(out@) == split_on(s@, sep),
{
    split_chars_by(s, sep, false)
}

/// Splits characters at every whitespace character.
pub fn split_chars_ws(s: &Vec<char>) -> (out: Vec<Vec<char>>)
    ensures
        cviews(out@) == split_on_ws(s@),
{
    split_chars_by(s, ' ', true)
}

/// Joins character vectors with a separator.
pub fn join_chars(parts: &Vec<Vec<char>>, sep: &Vec<char>) -> (out: Vec<char>)
    ensures
        out@ == join(cviews(parts@), sep@),
{
    let mut out: Vec<char> = Vec::new();
    for i in 0..parts.len()
        invariant
            out@ == join(cviews(parts@).take(i as int), sep@),
    {
        proof {
            lemma_join_push(cviews(parts@).take(i as int), parts@[i as int]@, sep@);
            assert(cviews(parts@).take(i + 1) =~= cviews(parts@).take(i as int).push(
                parts@[i as int]@,
            ));
        }
        if i > 0 {
            for k in 0..sep.len()
                invariant
                    out@ == join(cviews(parts@).take(i as int), sep@) + sep@.take(k as int),
            {
                out.push(sep[k]);
                assert(sep@.take(k + 1) =~= sep@.take(k as int).push(sep@[k as int]));
            }
            assert(sep@.take(sep.len() as int) =~= sep@);
        }
        let ghost base = out@;
        let part = &parts[i];
        for k in 0..part.len()
            invariant
                part == parts@[i as int],
                out@ == base + part@.take(k as int),
        {
            out.push(part[k]);
            assert(part@.take(k + 1) =~= part@.take(k as int).push(part@[k as int]));
        }
        assert(part@.take(part.len() as int) =~= part@);
        assert(i == 0 ==> cviews(parts@).take(i as int) =~= Seq::<Seq<char>>::empty());
        assert(out@ =~= join(cviews(parts@).take(i + 1), sep@));
    }
    assert(cviews(parts@).take(parts.len() as int) =~= cviews(parts@));
    out
}

/// Joins strings with a separator.
pub fn join_strings(parts: &Vec<String>, sep: &str) -> (out: String)
    ensures
        out@ == join(views(parts@), sep@),
{
    let mut out = String::new();
    for i in 0..parts.len()
        invariant
            out@ == join(views(parts@).take(i as int), sep@),
    {
        proof {
            lemma_join_push(views(parts@).take(i as int), parts@[i as int]@, sep@);
            assert(views(parts@).take(i + 1) =~= views(parts@).take(i as int).push(
                parts@[i as int]@,
            ));
        }
        if i > 0 {
            push_str(&mut out, sep);
        }
        push_str(&mut out, parts[i].as_str());
        assert(i == 0 ==> views(parts@).take(i as int) =~= Seq::<Seq<char>>::empty());
    }
    assert(views(parts@).take(parts.len() as int) =~= views(parts@));
    out
}

/// Keeps only the non-empty character vectors.
pub fn drop_empty_chars(parts: &Vec<Vec<char>>) -> (out: Vec<Vec<char>>)
    ensures
        cviews(out@) == drop_empty(cviews(parts@)),
{
    let mut out: Vec<Vec<char>> = Vec::new();
    let ghost all = cviews(parts@);
    for i in 0..parts.len()
        invariant
            all == cviews(parts@),
            cviews(out@) == drop_empty(all.take(i as int)),
    {
        assert(all.take(i + 1).drop_last() =~= all.take(i as int));
        assert(all.take(i + 1).last() == parts@[i as int]@);
        if parts[i].len() > 0 {
            let part = slice_chars(&parts[i], 0, parts[i].len());
            assert(part@ =~= parts@[i as int]@);
            let ghost before = cviews(out@);
            out.push(part);
            assert(cviews(out@) =~= before.push(all[i as int]));
        }
    }
    assert(all.take(parts.len() as int) =~= all);
    out
}

/// Whether `s` begins with `prefix`.
pub fn chars_start_with(s: &Vec<char>, prefix: &Vec<char>) -> (r: bool)
    ensures
        r == starts_with(s@, prefix@),
{
    if prefix.len() > s.len() {
        return false;
    }
    let mut i: usize = 0;
    while i < prefix.len()
        invariant
            prefix.len() <= s.len(),
            i <= prefix.len(),
            forall|k: int| 0 <= k < i ==> s@[k] == prefix@[k],
        decreases prefix.len() - i,
    {
        if s[i] != prefix[i] {
            assert(s@.take(prefix.len() as int)[i as int] != prefix@[i as int]);
            return false;
        }
        i += 1;
    }
    assert(s@.take(prefix.len() as int) =~= prefix@);
    true
}

/// Whether `s` equals `t` character by character.
pub fn chars_eq(s: &Vec<char>, t: &Vec<char>) -> (r: bool)
    ensures
        r == (s@ == t@),
{
    if s.len() != t.len() {
        return false;
    }
    let mut i: usize = 0;
    while i < s.len()
        invariant
            s.len() == t.len(),
            i <= s.len(),
            forall|k: int| 0 <= k < i ==> s@[k] == t@[k],
        decreases s.len() - i,
    {
        if s[i] != t[i] {
            return false;
        }
        i += 1;
    }
    assert(s@ =~= t@);
    true
}

/// Converts character vectors to strings.
pub fn strings_from_chars(parts: &Vec<Vec<char>>) -> (out: Vec<String>)
    ensures
        views(out@) == cviews(parts@),
{
    let mut out: Vec<String> = Vec::new();
    for i in 0..parts.len()
        invariant
            views(out@) == cviews(parts@).take(i as int),
    {
        let s = string_from_chars(&parts[i]);
        let ghost before = views(out@);
        out.push(s);
        assert(views(out@) =~= before.push(parts@[i as int]@));
        assert(cviews(parts@).take(i + 1) =~= cviews(parts@).take(i as int).push(
            parts@[i as int]@,
        ));
    }
    assert(cviews(parts@).take(parts.len() as int) =~= cviews(parts@));
    out
}

/// `s` with leading whitespace removed.
pub fn trim_start_chars(s: &Vec<char>) -> (out: Vec<char>)
    ensures
        out@ == trim_start(s@),
{
    let mut i: usize = 0;
    while i < s.len() && is_whitespace(s[i])
        invariant
            i <= s.len(),
            forall|k: int| 0 <= k < i ==> is_ws(#[trigger] s@[k]),
        decreases s.len() - i,
    {
        i += 1;
    }
    proof {
        lemma_trim_start_skip(s@, i as int);
        if i < s.len() {
            assert(s@.skip(i as int)[0] == s@[i as int]);
        }
        assert(s@.skip(i as int) =~= s@.subrange(i as int, s@.len() as int));
    }
    slice_chars(s, i, s.len())
}

/// `s` with trailing whitespace removed.
pub fn trim_end_chars(s: &Vec<char>) -> (out: Vec<char>)
    ensures
        out@ == trim_end(s@),
{
    let mut j: usize = s.len();
    while j > 0 && is_whitespace(s[j - 1])
        invariant
            j <= s.len(),
            forall|k: int| j <= k < s.len() ==> is_ws(#[trigger] s@[k]),
        decreases j,
    {
        j -= 1;
    }
    proof {
        lemma_trim_end_take(s@, j as int);
        if j > 0 {
            assert(s@.take(j as int).last() == s@[j - 1]);
        }
        assert(s@.take(j as int) =~= s@.subrange(0, j as int));
    }
    slice_chars(s, 0, j)
}

/// The position of the first occurrence of `c` in `s`.
pub open spec fn find_char(s: Seq<char>, c: char) -> Option<int> {
    if exists|i: int| 0 <= i < s.len() && s[i] == c {
        Some(choose|i: int| 0 <= i < s.len() && s[i] == c && forall|k: int| 0 <= k < i ==> s[k] != c)
    } else {
        None
    }
}

/// The first occurrence of `c` in `s`.
pub fn find_char_index(s: &Vec<char>, c: char) -> (r: Option<usize>)
    ensures
        r is None ==> find_char(s@, c) is None,
        r matches Some(i) ==> find_char(s@, c) == Some(i as int) && i < s.len(),
{
    for i in 0..s.len()
        invariant
            forall|k: int| 0 <= k < i ==> s@[k] != c,
    {
        if s[i] == c {
            proof {
                let w = choose|w: int| 0 <= w < s@.len() && s@[w] == c && forall|k: int| 0 <= k < w ==> s@[k] != c;
                if w < i {
                } else if w > i {
                    assert(s@[i as int] == c);
                }
            }
            return Some(i);
        }
    }
    None
}

/// The lines of a character sequence, as `str::lines` yields them.
pub fn lines_chars(s: &Vec<char>) -> (out: Vec<Vec<char>>)
    ensures
        cviews(out@) == lines(s@),
{
    let pieces = split_chars(s, '\n');
    proof {
        lemma_split_nonempty(s@, eq_pred('\n'));
    }
    let n = pieces.len();
    let keep = if pieces[n - 1].len() == 0 {
        n - 1
    } else {
        n
    };
    let ghost kept = if cviews(pieces@).last().len() == 0 {
        cviews(pieces@).drop_last()
    } else {
        cviews(pieces@)
    };
    assert(kept =~= cviews(pieces@).take(keep as int));
    let mut out: Vec<Vec<char>> = Vec::new();
    for i in 0..keep
        invariant
            keep <= pieces.len(),
            kept == cviews(pieces@).take(keep as int),
            cviews(out@) == kept.take(i as int).map_values(|p: Seq<char>| strip_cr(p)),
    {
        let piece = &pieces[i];
        let m = piece.len();
        let end = if m > 0 && piece[m - 1] == '\r' {
            m - 1
        } else {
            m
        };
        let line = slice_chars(piece, 0, end);
        assert(line@ =~= strip_cr(kept[i as int]));
        let ghost before = cviews(out@);
        out.push(line);
        assert(cviews(out@) =~= before.push(line@));
        assert(kept.take(i + 1).map_values(|p: Seq<char>| strip_cr(p)) =~= kept.take(i as int).map_values(
            |p: Seq<char>| strip_cr(p),
        ).push(strip_cr(kept[i as int])));
    }
    assert(kept.take(keep as int) =~= kept);
    out
}


/// Whitespace-free words joined by single spaces split back into those
/// words.
pub proof fn lemma_words_of_joined(ws: Seq<Seq<char>>)
    requires
        forall|i: int| 0 <= i < ws.len() ==> (#[trigger] ws[i]).len() > 0,
        forall|i: int, k: int| 0 <= i < ws.len() && 0 <= k < ws[i].len() ==> !is_ws(#[trigger] ws[i][k]),
    ensures
        words(join(ws, " "@)) == ws,
{
    reveal_strlit(" ");
    if ws.len() == 0 {
        assert(join(ws, " "@) =~= Seq::<char>::empty());
        let one = seq![Seq::<char>::empty()];
        assert(split_on_ws(Seq::<char>::empty()) == one);
        assert(one.drop_last() =~= Seq::<Seq<char>>::empty());
        assert(drop_empty(one) == drop_empty(one.drop_last()));
        assert(ws =~= Seq::<Seq<char>>::empty());
    } else {
        let is_sep = ws_pred();
        assert(" "@ =~= seq![' '] + Seq::<char>::empty());
        assert(is_sep(' '));
        assert forall|i: int, k: int| 0 <= i < ws.len() && 0 <= k < ws[i].len() implies !is_sep(
            #[trigger] ws[i][k],
        ) by {
            assert(!is_ws(ws[i][k]));
        }
        lemma_split_join(ws, ' ', Seq::<char>::empty(), is_sep);
        let pieces = joined_pieces(ws, Seq::<char>::empty());
        assert forall|i: int| 0 <= i < ws.len() implies pieces[i] == ws[i] by {
            if i > 0 {
                assert(Seq::<char>::empty() + ws[i] =~= ws[i]);
            }
        }
        assert(pieces =~= ws);
        lemma_drop_empty_none(ws);
    }
}

/// Putting a text's words on one line, separated by single spaces, keeps
/// its words, and doing it again changes nothing.
pub proof fn lemma_single_line(d: Seq<char>)
    ensures
        words(join(words(d), " "@)) == words(d),
        join(words(join(words(d), " "@)), " "@) == join(words(d), " "@),
{
    let ws = words(d);
    let pieces = split_on_ws(d);
    lemma_drop_empty_parts(pieces);
    lemma_split_pieces_from(d, ws_pred());
    assert forall|i: int, k: int| 0 <= i < ws.len() && 0 <= k < ws[i].len() implies !is_ws(#[trigger] ws[i][k]) by {
        assert(pieces.contains(ws[i]));
        let j = choose|j: int| 0 <= j < pieces.len() && pieces[j] == ws[i];
        assert(!ws_pred()(pieces[j][k]));
    }
    lemma_words_of_joined(ws);
}

} // verus!
