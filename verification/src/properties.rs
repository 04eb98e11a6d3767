//! `server.properties`: reading, the controls its values get, writing back, and the settings
//! that apply to a running server at once.

use vstd::prelude::*;
use crate::text::{self, first_occurrence, starts_with_spec, trim_spec};

verus! {

/// A line of `server.properties`: a `key=value` pair or a line kept as it is.
#[derive(Clone, Debug)]
pub enum PropLine {
    Pair(String, String),
    Raw(String),
}

/// The content of a `PropLine`.
pub enum PropView {
    Pair(Seq<char>, Seq<char>),
    Raw(Seq<char>),
}

impl View for PropLine {
    type V = PropView;

    open spec fn view(&self) -> PropView {
        match self {
            PropLine::Pair(k, v) => PropView::Pair(k@, v@),
            PropLine::Raw(s) => PropView::Raw(s@),
        }
    }
}

/// How one line reads: comments and blank lines stay as they are; otherwise the text before
/// the first `=` (without surrounding white space) is the key and the rest the value; a line
/// with no `=` stays as it is.
pub open spec fn parse_line_spec(line: Seq<char>) -> PropView {
    let t = text::trim_start_spec(line);
    if starts_with_spec(t, "#"@) || t.len() == 0 {
        PropView::Raw(line)
    } else if text::contains_spec(line, "="@) {
        let i = choose|i: int| first_occurrence(line, "="@, i);
        PropView::Pair(trim_spec(line.subrange(0, i)), line.subrange(i + 1, line.len() as int))
    } else {
        PropView::Raw(line)
    }
}

proof fn lemma_trim_start_append(a: Seq<char>, b: Seq<char>)
    ensures
        text::trim_start_spec(a + b) == (if text::trim_start_spec(a).len() > 0 {
            text::trim_start_spec(a) + b
        } else {
            text::trim_start_spec(b)
        }),
    decreases a.len(),
{
    if a.len() > 0 {
        assert((a + b)[0] == a[0]);
        if text::is_ws(a[0]) {
            assert((a + b).drop_first() =~= a.drop_first() + b);
            lemma_trim_start_append(a.drop_first(), b);
        }
    } else {
        assert(a + b =~= b);
    }
}

/// A line written as `key=value`, whose key holds no `=` and does not start (after white
/// space) with `#`, reads as the pair of the trimmed key and the whole value, an empty value
/// included.
pub proof fn law_assignment_reads_as_pair(key: Seq<char>, value: Seq<char>)
    requires
        !text::contains_spec(key, "="@),
        !starts_with_spec(text::trim_start_spec(key), "#"@),
    ensures
        parse_line_spec(key + "="@ + value) == PropView::Pair(trim_spec(key), value),
{
    reveal_strlit("=");
    reveal_strlit("#");
    let line = key + "="@ + value;
    let n = key.len() as int;
    assert(line.subrange(n, n + 1) =~= "="@);
    assert(text::occurs_at(line, "="@, n));
    assert forall|j: int| 0 <= j < n implies !text::occurs_at(line, "="@, j) by {
        if text::occurs_at(line, "="@, j) {
            assert(key.subrange(j, j + 1) =~= line.subrange(j, j + 1));
            assert(text::occurs_at(key, "="@, j));
        }
    }
    assert(first_occurrence(line, "="@, n));
    let i = choose|i: int| first_occurrence(line, "="@, i);
    assert(i == n) by {
        if i < n {} else if i > n {}
    }
    assert(line.subrange(0, n) =~= key);
    assert(line.subrange(n + 1, line.len() as int) =~= value);
    lemma_trim_start_append(key, "="@ + value);
    assert(line =~= key + ("="@ + value));
    let t = text::trim_start_spec(line);
    if text::trim_start_spec(key).len() > 0 {
        assert(t.subrange(0, 1) =~= text::trim_start_spec(key).subrange(0, 1));
    } else {
        assert(text::trim_start_spec("="@ + value) == "="@ + value) by {
            assert(("="@ + value)[0] == '=');
        }
        assert(t.subrange(0, 1) =~= "="@);
    }
    assert(!starts_with_spec(t, "#"@));
    assert(t.len() > 0);
}

/// A line reads as a pair exactly when it is neither blank nor a comment and holds an `=`;
/// every other line is kept as it is.
pub proof fn law_pair_lines(line: Seq<char>)
    ensures
        (parse_line_spec(line) is Pair) == (text::trim_start_spec(line).len() > 0
            && !starts_with_spec(text::trim_start_spec(line), "#"@) && text::contains_spec(line, "="@)),
        parse_line_spec(line) is Raw ==> parse_line_spec(line) == PropView::Raw(line),
{
}

/// Reads one line.
pub fn parse_line(line: &[char]) -> (r: PropLine)
    ensures
        r@ == parse_line_spec(line@),
{
    let t = trim_start(line);
    let hash = text::chars_of("#");
    if text::starts_with(&t, &hash) || t.len() == 0 {
        return PropLine::Raw(text::string_of(line));
    }
    let eq = text::chars_of("=");
    match text::find(line, &eq) {
        Some(i) => {
            proof {
                let j = choose|j: int| first_occurrence(line@, "="@, j);
                assert(j == i as int) by {
                    if j < i {} else if j > i {}
                }
            }
            proof {
                reveal_strlit("=");
            }
            assert(i + 1 <= line@.len() == line.len());
            let k = text::slice_chars(line, 0, i);
            let key = text::trim(&k);
            let value = text::slice_chars(line, i + 1, line.len());
            PropLine::Pair(text::string_of(&key), text::string_of(&value))
        },
        None => PropLine::Raw(text::string_of(line)),
    }
}

/// `s` without leading white space.
fn trim_start(s: &[char]) -> (r: Vec<char>)
    ensures
        r@ == text::trim_start_spec(s@),
{
    let n = s.len();
    let mut i: usize = 0;
    assert(s@.subrange(0, n as int) =~= s@);
    while i < n && text::is_whitespace(s[i])
        invariant
            i <= n == s@.len(),
            text::trim_start_spec(s@) == text::trim_start_spec(s@.subrange(i as int, n as int)),
        decreases n - i,
    {
        assert(s@.subrange(i as int, n as int).drop_first() =~= s@.subrange(i + 1, n as int));
        i = i + 1;
    }
    text::slice_chars(s, i, n)
}

/// Reads the content of a `server.properties` file, line by line.
pub fn parse(content: &str) -> (r: Vec<PropLine>)
    ensures
        r@.len() == text::lines_spec(content@).len(),
        forall|k: int| 0 <= k < r@.len() ==> #[trigger] r@[k]@ == parse_line_spec(text::lines_spec(content@)[k]),
{
    let chars = text::chars_of(content);
    let ls = text::lines(&chars);
    let mut out: Vec<PropLine> = Vec::new();
    let mut k: usize = 0;
    while k < ls.len()
        invariant
            ls@.len() == text::lines_spec(content@).len(),
            forall|m: int| 0 <= m < ls@.len() ==> #[trigger] ls@[m]@ == text::lines_spec(content@)[m],
            k <= ls@.len(),
            out@.len() == k,
            forall|m: int| 0 <= m < k ==> #[trigger] out@[m]@ == parse_line_spec(text::lines_spec(content@)[m]),
        decreases ls.len() - k,
    {
        out.push(parse_line(&ls[k]));
        k = k + 1;
    }
    out
}

/// The value given to `key` by the first edited entry with that key.
pub open spec fn edited_value(entries: Seq<(Seq<char>, Seq<char>)>, key: Seq<char>) -> Option<Seq<char>>
    decreases entries.len(),
{
    if entries.len() == 0 {
        None
    } else if entries[0].0 == key {
        Some(entries[0].1)
    } else {
        edited_value(entries.drop_first(), key)
    }
}

/// One line as written back, with its line end: a kept line unchanged, a pair as `key=value`
/// with the edited value where there is one.
pub open spec fn render_line_spec(line: PropView, entries: Seq<(Seq<char>, Seq<char>)>) -> Seq<char> {
    match line {
        PropView::Raw(s) => s + "\n"@,
        PropView::Pair(k, v) => k + "="@ + (match edited_value(entries, k) {
            Some(e) => e,
            None => v,
        }) + "\n"@,
    }
}

/// The file content written back: every line in order.
pub open spec fn render_spec(lines: Seq<PropView>, entries: Seq<(Seq<char>, Seq<char>)>) -> Seq<char>
    decreases lines.len(),
{
    if lines.len() == 0 {
        Seq::empty()
    } else {
        render_spec(lines.drop_last(), entries) + render_line_spec(lines.last(), entries)
    }
}

/// The texts of the edited entries.
pub open spec fn entries_view(entries: Seq<(String, String)>) -> Seq<(Seq<char>, Seq<char>)> {
    entries.map_values(|e: (String, String)| (e.0@, e.1@))
}

fn edited_value_of(entries: &Vec<(String, String)>, key: &str) -> (r: Option<String>)
    ensures
        match r {
            Some(v) => edited_value(entries_view(entries@), key@) == Some(v@),
            None => edited_value(entries_view(entries@), key@) is None,
        },
{
    let ghost ev = entries_view(entries@);
    let mut i: usize = 0;
    assert(ev.skip(0) =~= ev);
    while i < entries.len()
        invariant
            ev == entries_view(entries@),
            i <= entries@.len(),
            edited_value(ev, key@) == edited_value(ev.skip(i as int), key@),
        decreases entries.len() - i,
    {
        assert(ev.skip(i as int)[0] == (entries@[i as int].0@, entries@[i as int].1@));
        if text::same(entries[i].0.as_str(), key) {
            return Some(entries[i].1.clone());
        }
        assert(ev.skip(i as int).drop_first() =~= ev.skip(i + 1));
        i = i + 1;
    }
    None
}

/// The content of `server.properties` for `lines`, where `entries` holds the edited
/// `(key, value)` pairs.
pub fn render(lines: &Vec<PropLine>, entries: &Vec<(String, String)>) -> (r: String)
    ensures
        r@ == render_spec(lines@.map_values(|l: PropLine| l@), entries_view(entries@)),
{
    let ghost lv = lines@.map_values(|l: PropLine| l@);
    let ghost ev = entries_view(entries@);
    let mut out: Vec<char> = Vec::new();
    let mut i: usize = 0;
    assert(lv.take(0) =~= Seq::<PropView>::empty());
    while i < lines.len()
        invariant
            lv == lines@.map_values(|l: PropLine| l@),
            ev == entries_view(entries@),
            i <= lines@.len(),
            out@ == render_spec(lv.take(i as int), ev),
        decreases lines.len() - i,
    {
        assert(lv.take(i + 1).drop_last() =~= lv.take(i as int));
        assert(lv.take(i + 1).last() == lines@[i as int]@);
        match &lines[i] {
            PropLine::Raw(s) => {
                text::push_str(&mut out, s.as_str());
                text::push_str(&mut out, "\n");
            },
            PropLine::Pair(k, current) => {
                text::push_str(&mut out, k.as_str());
                text::push_str(&mut out, "=");
                match edited_value_of(entries, k.as_str()) {
                    Some(v) => text::push_str(&mut out, v.as_str()),
                    None => text::push_str(&mut out, current.as_str()),
                }
                text::push_str(&mut out, "\n");
            },
        }
        i = i + 1;
    }
    assert(lv.take(lines@.len() as int) =~= lv);
    text::string_of(&out)
}

/// Writing back with no edits changes nothing but line ends: every kept line and every pair
/// comes back in order, each followed by one `\n`.
pub proof fn law_render_unedited_line(line: PropView)
    ensures
        render_line_spec(line, Seq::empty()) == match line {
            PropView::Raw(s) => s + "\n"@,
            PropView::Pair(k, v) => k + "="@ + v + "\n"@,
        },
{
}

/// An edited entry decides the value written for its key.
pub proof fn law_render_edited_value(k: Seq<char>, v: Seq<char>, entries: Seq<(Seq<char>, Seq<char>)>, e: Seq<char>)
    requires
        edited_value(entries, k) == Some(e),
    ensures
        render_line_spec(PropView::Pair(k, v), entries) == k + "="@ + e + "\n"@,
{
}

/// The text before the first `=` of a line (all of it where there is none).
pub open spec fn key_part(line: Seq<char>) -> Seq<char> {
    if text::contains_spec(line, "="@) {
        let i = choose|i: int| first_occurrence(line, "="@, i);
        line.subrange(0, i)
    } else {
        line
    }
}

/// Writing a line back without edits reproduces it, followed by a line end, wherever its key
/// has no surrounding white space.
pub proof fn law_line_round_trip(line: Seq<char>)
    requires
        trim_spec(key_part(line)) == key_part(line),
    ensures
        render_line_spec(parse_line_spec(line), Seq::empty()) == line + "\n"@,
{
    reveal_strlit("=");
    match parse_line_spec(line) {
        PropView::Raw(s) => {},
        PropView::Pair(k, v) => {
            let j = choose|j: int| text::occurs_at(line, "="@, j);
            text::lemma_first_occurrence_exists(line, "="@, j);
            let i = choose|i: int| first_occurrence(line, "="@, i);
            assert(line.subrange(i, i + 1) == "="@);
            assert("="@[0] == '=');
            assert(line[i] == line.subrange(i, i + 1)[0]);
            assert(k + "="@ + v =~= line);
        },
    }
}

proof fn lemma_join_update_last(p: Seq<Seq<char>>, sep: Seq<char>, x: char)
    requires
        p.len() >= 1,
    ensures
        text::join_spec(p.update(p.len() - 1, p.last().push(x)), sep) == text::join_spec(p, sep).push(x),
{
    let q = p.update(p.len() - 1, p.last().push(x));
    if p.len() >= 2 {
        assert(q.drop_last() =~= p.drop_last());
        assert(q.last() == p.last().push(x));
        assert(text::join_spec(q, sep) =~= text::join_spec(p, sep).push(x));
    }
}

proof fn lemma_split_join(s: Seq<char>, c: char)
    ensures
        text::join_spec(text::split_spec(s, c), seq![c]) == s,
    decreases s.len(),
{
    if s.len() > 0 {
        let t = s.drop_last();
        lemma_split_join(t, c);
        text::lemma_split_nonempty(t, c);
        let p = text::split_spec(t, c);
        if s.last() == c {
            let q = p.push(Seq::<char>::empty());
            assert(q.drop_last() =~= p);
            assert(text::join_spec(q, seq![c]) =~= s);
        } else {
            lemma_join_update_last(p, seq![c], s.last());
            assert(t.push(s.last()) =~= s);
        }
    } else {
        assert(text::split_spec(s, c) =~= seq![Seq::<char>::empty()]);
    }
}

proof fn lemma_split_pieces_avoid(s: Seq<char>, c: char, d: char)
    requires
        forall|j: int| 0 <= j < s.len() ==> s[j] != d,
    ensures
        forall|k: int, j: int| 0 <= k < text::split_spec(s, c).len() && 0 <= j < text::split_spec(s, c)[k].len()
            ==> text::split_spec(s, c)[k][j] != d,
    decreases s.len(),
{
    if s.len() > 0 {
        let t = s.drop_last();
        lemma_split_pieces_avoid(t, c, d);
        text::lemma_split_nonempty(t, c);
        let p = text::split_spec(t, c);
        let q = text::split_spec(s, c);
        assert forall|k: int, j: int| 0 <= k < q.len() && 0 <= j < q[k].len() implies q[k][j] != d by {
            if s.last() != c && k == p.len() - 1 && j == p.last().len() {
                assert(q[k][j] == s.last());
            } else if s.last() != c && k == p.len() - 1 {
                assert(q[k][j] == p[k][j]);
            } else if k < p.len() {
                assert(q[k] == p[k]);
            }
        }
    }
}

/// Whether a line is written back exactly as it was read: its key (the text before the first
/// `=`) has no surrounding white space.
pub open spec fn tight_key(line: Seq<char>) -> bool {
    trim_spec(key_part(line)) == key_part(line)
}

proof fn lemma_render_lines(q: Seq<Seq<char>>)
    requires
        q.len() >= 1,
        forall|i: int| 0 <= i < q.len() ==> tight_key(#[trigger] q[i]),
    ensures
        render_spec(q.map_values(|l: Seq<char>| parse_line_spec(l)), Seq::empty())
            == text::join_spec(q, "\n"@) + "\n"@,
    decreases q.len(),
{
    let lv = q.map_values(|l: Seq<char>| parse_line_spec(l));
    let d = q.drop_last();
    assert(lv.drop_last() =~= d.map_values(|l: Seq<char>| parse_line_spec(l)));
    assert(lv.last() == parse_line_spec(q.last()));
    assert(tight_key(q[q.len() - 1]));
    law_line_round_trip(q.last());
    if q.len() == 1 {
        let e: Seq<(Seq<char>, Seq<char>)> = Seq::empty();
        assert(lv.drop_last() =~= Seq::<PropView>::empty());
        assert(render_spec(lv, e) == render_spec(lv.drop_last(), e) + render_line_spec(lv.last(), e));
        assert(render_spec(lv.drop_last(), e) == Seq::<char>::empty());
        assert(render_line_spec(lv.last(), e) == q.last() + "\n"@);
        assert(text::join_spec(q, "\n"@) == q[0]);
        assert(render_spec(lv, e) =~= text::join_spec(q, "\n"@) + "\n"@);
    } else {
        assert forall|i: int| 0 <= i < d.len() implies tight_key(#[trigger] d[i]) by {
            assert(d[i] == q[i]);
        }
        lemma_render_lines(d);
        let e: Seq<(Seq<char>, Seq<char>)> = Seq::empty();
        assert(render_spec(lv, e) == render_spec(lv.drop_last(), e) + render_line_spec(lv.last(), e));
        assert(render_spec(lv.drop_last(), e) == text::join_spec(d, "\n"@) + "\n"@);
        assert(render_line_spec(lv.last(), e) == q.last() + "\n"@);
        assert(text::join_spec(q, "\n"@) == text::join_spec(d, "\n"@) + "\n"@ + q.last());
        assert(render_spec(lv, e) =~= text::join_spec(q, "\n"@) + "\n"@);
    }
}

/// Saving without edits writes back the file as it was read, for a file with no carriage
/// returns, ending in a line end (or empty), whose keys have no white space around them.
pub proof fn law_unedited_file_round_trip(content: Seq<char>)
    requires
        content.len() == 0 || content.last() == '\n',
        forall|j: int| 0 <= j < content.len() ==> content[j] != '\r',
        forall|i: int| 0 <= i < text::lines_spec(content).len() ==> tight_key(#[trigger] text::lines_spec(content)[i]),
    ensures
        render_spec(
            text::lines_spec(content).map_values(|l: Seq<char>| parse_line_spec(l)),
            Seq::empty(),
        ) == content,
{
    reveal_strlit("\n");
    let p = text::split_spec(content, '\n');
    text::lemma_split_nonempty(content, '\n');
    lemma_split_join(content, '\n');
    lemma_split_pieces_avoid(content, '\n', '\r');
    let ls = text::lines_spec(content);
    if content.len() == 0 {
        assert(p =~= seq![Seq::<char>::empty()]);
        assert(ls =~= Seq::<Seq<char>>::empty());
        assert(ls.map_values(|l: Seq<char>| parse_line_spec(l)) =~= Seq::<PropView>::empty());
    } else {
        let q = p.drop_last();
        assert(p.last().len() == 0);
        assert forall|i: int| 0 <= i < q.len() implies text::strip_cr(p[i]) == q[i] by {
            if p[i].len() > 0 {
                assert(p[i][p[i].len() - 1] != '\r');
            }
        }
        assert(ls =~= q);
        assert("\n"@ =~= seq!['\n']);
        assert(p =~= q.push(Seq::<char>::empty()));
        assert(text::join_spec(p, seq!['\n']) =~= text::join_spec(q, seq!['\n']) + seq!['\n']);
        lemma_render_lines(q);
    }
}

/// The `(key, value)` pairs of `lines`, in order: what the settings page shows a control for.
pub open spec fn pair_entries(lines: Seq<PropView>) -> Seq<(Seq<char>, Seq<char>)>
    decreases lines.len(),
{
    if lines.len() == 0 {
        Seq::empty()
    } else {
        let rest = pair_entries(lines.drop_last());
        match lines.last() {
            PropView::Pair(k, v) => rest.push((k, v)),
            PropView::Raw(_) => rest,
        }
    }
}

/// No two pairs of `lines` share a key.
pub open spec fn distinct_keys(lines: Seq<PropView>) -> bool {
    forall|i: int, j: int|
        0 <= i < j < pair_entries(lines).len() ==> #[trigger] pair_entries(lines)[i].0 != #[trigger] pair_entries(lines)[j].0
}

/// The names a `difficulty` control offers, in the order of their old numeric values.
pub open spec fn difficulty_names() -> Seq<Seq<char>> {
    seq!["peaceful"@, "easy"@, "normal"@, "hard"@]
}

/// The names a `gamemode` control offers, in the order of their old numeric values.
pub open spec fn gamemode_names() -> Seq<Seq<char>> {
    seq!["survival"@, "creative"@, "adventure"@, "spectator"@]
}

/// What the control made for `key` with the value read, `value`, reports while the user
/// leaves it alone: a choice reports the option the normalized value selects (`None` where
/// it selects none, and the control's own default decides); a switch reports `true` or
/// `false` as read; free text reports the text read.
pub open spec fn initial_value(key: Seq<char>, value: Seq<char>) -> Option<Seq<char>> {
    if key == "difficulty"@ || key == "gamemode"@ {
        let opts = if key == "difficulty"@ { difficulty_names() } else { gamemode_names() };
        let n = normalize_spec(value, opts);
        if opts.contains(n) {
            Some(n)
        } else {
            None
        }
    } else if value == "true"@ {
        Some("true"@)
    } else if value == "false"@ {
        Some("false"@)
    } else {
        Some(value)
    }
}

proof fn lemma_edited_value_found(e: Seq<(Seq<char>, Seq<char>)>, k: Seq<char>, v: Seq<char>)
    requires
        forall|i: int, j: int| 0 <= i < j < e.len() ==> #[trigger] e[i].0 != #[trigger] e[j].0,
        e.contains((k, v)),
    ensures
        edited_value(e, k) == Some(v),
    decreases e.len(),
{
    let i = choose|i: int| 0 <= i < e.len() && e[i] == (k, v);
    if e[0].0 == k {
        if i != 0 {
            assert(e[0].0 != e[i].0);
        }
    } else {
        let d = e.drop_first();
        assert(d[i - 1] == (k, v));
        assert forall|a: int, b: int| 0 <= a < b < d.len() implies #[trigger] d[a].0 != #[trigger] d[b].0 by {
            assert(d[a] == e[a + 1]);
            assert(d[b] == e[b + 1]);
        }
        lemma_edited_value_found(d, k, v);
    }
}

proof fn lemma_pair_listed(lines: Seq<PropView>, m: int, k: Seq<char>, v: Seq<char>)
    requires
        0 <= m < lines.len(),
        lines[m] == PropView::Pair(k, v),
    ensures
        pair_entries(lines).contains((k, v)),
    decreases lines.len(),
{
    let d = lines.drop_last();
    let pd = pair_entries(d);
    if m == lines.len() - 1 {
        assert(pair_entries(lines) == pd.push((k, v)));
        assert(pair_entries(lines)[pd.len() as int] == (k, v));
    } else {
        assert(d[m] == lines[m]);
        lemma_pair_listed(d, m, k, v);
        let j = choose|j: int| 0 <= j < pd.len() && pd[j] == (k, v);
        match lines.last() {
            PropView::Pair(a, b) => {
                assert(pair_entries(lines) == pd.push((a, b)));
                assert(pair_entries(lines)[j] == (k, v));
            },
            PropView::Raw(_) => {
                assert(pair_entries(lines)[j] == (k, v));
            },
        }
    }
}

proof fn lemma_render_keeps_values(lines: Seq<PropView>, all: Seq<PropView>, entries: Seq<(Seq<char>, Seq<char>)>)
    requires
        lines.len() <= all.len(),
        forall|m: int| 0 <= m < lines.len() ==> lines[m] == #[trigger] all[m],
        forall|m: int| 0 <= m < all.len() ==> match #[trigger] all[m] {
            PropView::Pair(k, v) => edited_value(entries, k) == Some(v),
            PropView::Raw(_) => true,
        },
    ensures
        render_spec(lines, entries) == render_spec(lines, Seq::empty()),
    decreases lines.len(),
{
    if lines.len() > 0 {
        let d = lines.drop_last();
        assert forall|m: int| 0 <= m < d.len() implies d[m] == #[trigger] all[m] by {
            assert(d[m] == lines[m]);
        }
        lemma_render_keeps_values(d, all, entries);
        let m = lines.len() - 1;
        assert(lines[m] == all[m]);
        match lines.last() {
            PropView::Pair(k, v) => {
                assert(all[m] == PropView::Pair(k, v));
            },
            PropView::Raw(_) => {},
        }
    }
}

/// Saving with every control still showing the value read writes back what saving without
/// edits does: where no two pairs share a key, the entries `(key, value)` of the pairs read
/// leave every line as it was.
pub proof fn law_unchanged_controls_round_trip(lines: Seq<PropView>)
    requires
        distinct_keys(lines),
    ensures
        render_spec(lines, pair_entries(lines)) == render_spec(lines, Seq::empty()),
{
    let pe = pair_entries(lines);
    assert forall|m: int| 0 <= m < lines.len() implies match #[trigger] lines[m] {
        PropView::Pair(k, v) => edited_value(pe, k) == Some(v),
        PropView::Raw(_) => true,
    } by {
        match lines[m] {
            PropView::Pair(k, v) => {
                lemma_pair_listed(lines, m, k, v);
                lemma_edited_value_found(pe, k, v);
            },
            PropView::Raw(_) => {},
        }
    }
    lemma_render_keeps_values(lines, lines, pe);
}

/// What the controls report for the pairs read, while the user changes nothing, equals the
/// values read wherever each control's initial value is the value read; saving then writes
/// back what saving without edits does.
pub proof fn law_untouched_controls_save(lines: Seq<PropView>, entries: Seq<(Seq<char>, Seq<char>)>)
    requires
        distinct_keys(lines),
        entries.len() == pair_entries(lines).len(),
        forall|i: int| 0 <= i < entries.len() ==> (#[trigger] entries[i]).0 == pair_entries(lines)[i].0
            && initial_value(pair_entries(lines)[i].0, pair_entries(lines)[i].1) == Some(entries[i].1),
        forall|i: int| 0 <= i < pair_entries(lines).len()
            ==> initial_value(#[trigger] pair_entries(lines)[i].0, pair_entries(lines)[i].1) == Some(pair_entries(lines)[i].1),
    ensures
        render_spec(lines, entries) == render_spec(lines, Seq::empty()),
{
    let pe = pair_entries(lines);
    assert forall|i: int| 0 <= i < entries.len() implies #[trigger] entries[i] == pe[i] by {
        assert(initial_value(pe[i].0, pe[i].1) == Some(pe[i].1));
    }
    assert(entries =~= pe);
    law_unchanged_controls_round_trip(lines);
}

proof fn lemma_name_normal(n: Seq<char>, opts: Seq<Seq<char>>)
    requires
        n.len() > 0,
        'a' <= n[0] <= 'z',
        'a' <= n.last() <= 'z',
    ensures
        normalize_spec(n, opts) == n,
{
    assert(!text::is_ws(n[0]));
    assert(!text::is_ws(n.last()));
    assert(text::trim_start_spec(n) == n);
    assert(text::trim_end_spec(n) == n);
    assert(trim_spec(n) == n);
    assert(text::unsigned_body(n) == n);
    assert(!text::is_digit(n[0]));
    assert(!text::all_digits(n));
}

/// A control for `difficulty` or `gamemode` whose value read is one of its option names, a
/// switch, and free text all start out showing the value read.
pub proof fn law_controls_start_at_value(key: Seq<char>, value: Seq<char>)
    requires
        key == "difficulty"@ ==> difficulty_names().contains(value),
        key == "gamemode"@ ==> gamemode_names().contains(value),
    ensures
        initial_value(key, value) == Some(value),
{
    reveal_strlit("difficulty");
    reveal_strlit("gamemode");
    reveal_strlit("peaceful");
    reveal_strlit("easy");
    reveal_strlit("normal");
    reveal_strlit("hard");
    reveal_strlit("survival");
    reveal_strlit("creative");
    reveal_strlit("adventure");
    reveal_strlit("spectator");
    if key == "difficulty"@ || key == "gamemode"@ {
        let opts = if key == "difficulty"@ { difficulty_names() } else { gamemode_names() };
        assert(opts.contains(value));
        let i = choose|i: int| 0 <= i < opts.len() && opts[i] == value;
        assert(value.len() > 0 && 'a' <= value[0] <= 'z' && 'a' <= value.last() <= 'z') by {
            if key == "difficulty"@ {
                assert(i == 0 || i == 1 || i == 2 || i == 3);
            } else {
                assert(i == 0 || i == 1 || i == 2 || i == 3);
            }
        }
        lemma_name_normal(value, opts);
    }
}

/// Saving with every control untouched writes back the file as it was read, for a file with
/// no carriage returns, ending in a line end (or empty), whose keys have no white space
/// around them and occur once each.
pub proof fn law_unchanged_controls_file_round_trip(content: Seq<char>)
    requires
        content.len() == 0 || content.last() == '\n',
        forall|j: int| 0 <= j < content.len() ==> content[j] != '\r',
        forall|i: int| 0 <= i < text::lines_spec(content).len() ==> tight_key(#[trigger] text::lines_spec(content)[i]),
        distinct_keys(text::lines_spec(content).map_values(|l: Seq<char>| parse_line_spec(l))),
    ensures
        render_spec(
            text::lines_spec(content).map_values(|l: Seq<char>| parse_line_spec(l)),
            pair_entries(text::lines_spec(content).map_values(|l: Seq<char>| parse_line_spec(l))),
        ) == content,
{
    law_unchanged_controls_round_trip(text::lines_spec(content).map_values(|l: Seq<char>| parse_line_spec(l)));
    law_unedited_file_round_trip(content);
}

/// The names of the difficulty levels, in the order of their old numeric values.
pub fn difficulty_options() -> (r: Vec<String>)
    ensures
        r@.map_values(|s: String| s@) == seq!["peaceful"@, "easy"@, "normal"@, "hard"@],
{
    let r: Vec<String> = vec!["peaceful".to_string(), "easy".to_string(), "normal".to_string(), "hard".to_string()];
    assert(r@.map_values(|s: String| s@) =~= seq!["peaceful"@, "easy"@, "normal"@, "hard"@]);
    r
}

/// The names of the game modes, in the order of their old numeric values.
pub fn gamemode_options() -> (r: Vec<String>)
    ensures
        r@.map_values(|s: String| s@) == seq!["survival"@, "creative"@, "adventure"@, "spectator"@],
{
    let r: Vec<String> = vec!["survival".to_string(), "creative".to_string(), "adventure".to_string(), "spectator".to_string()];
    assert(r@.map_values(|s: String| s@) =~= seq!["survival"@, "creative"@, "adventure"@, "spectator"@]);
    r
}

/// A value with an old-style number replaced by the option's name: a number that indexes
/// `options` gives that option, anything else the value without surrounding white space.
pub open spec fn normalize_spec(value: Seq<char>, options: Seq<Seq<char>>) -> Seq<char> {
    match text::parse_usize_spec(trim_spec(value)) {
        Some(i) => if i < options.len() {
            options[i as int]
        } else {
            trim_spec(value)
        },
        None => trim_spec(value),
    }
}

/// Replaces an old-style numeric enum value by the option's name.
pub fn normalize(value: &str, options: &Vec<String>) -> (r: String)
    ensures
        r@ == normalize_spec(value@, options@.map_values(|s: String| s@)),
{
    let v = text::chars_of(value);
    let t = text::trim(&v);
    match text::parse_usize(&t) {
        Some(i) => if i < options.len() {
            let o = options[i].clone();
            assert(o@ == options@.map_values(|s: String| s@)[i as int]);
            o
        } else {
            text::string_of(&t)
        },
        None => text::string_of(&t),
    }
}

/// Position of `value` (normalized) among `options`.
pub fn choice_index(value: &str, options: &Vec<String>) -> (r: Option<usize>)
    ensures
        match r {
            Some(i) => i < options@.len() && options@[i as int]@ == normalize_spec(value@, options@.map_values(|s: String| s@))
                && forall|j: int| 0 <= j < i ==> options@[j]@ != normalize_spec(value@, options@.map_values(|s: String| s@)),
            None => forall|j: int| 0 <= j < options@.len() ==> options@[j]@ != normalize_spec(value@, options@.map_values(|s: String| s@)),
        },
{
    let current = normalize(value, options);
    let mut i: usize = 0;
    while i < options.len()
        invariant
            i <= options@.len(),
            current@ == normalize_spec(value@, options@.map_values(|s: String| s@)),
            forall|j: int| 0 <= j < i ==> options@[j]@ != current@,
        decreases options.len() - i,
    {
        if text::same(options[i].as_str(), current.as_str()) {
            return Some(i);
        }
        i = i + 1;
    }
    None
}

/// The control that edits a value.
pub enum ControlKind {
    /// A choice among named options, with the position of the current value.
    Choice(Vec<String>, Option<usize>),
    /// An on/off switch, with its current state.
    Switch(bool),
    /// Free text.
    Entry,
}

/// The control for `key` with value `value`: a choice for `difficulty` and `gamemode`,
/// a switch for `true`/`false`, free text otherwise.
pub fn control_kind(key: &str, value: &str) -> (r: ControlKind)
    ensures
        key@ == "difficulty"@ ==> (r matches ControlKind::Choice(opts, sel)
            && opts@.map_values(|s: String| s@) == seq!["peaceful"@, "easy"@, "normal"@, "hard"@]),
        key@ == "gamemode"@ ==> (r matches ControlKind::Choice(opts, sel)
            && opts@.map_values(|s: String| s@) == seq!["survival"@, "creative"@, "adventure"@, "spectator"@]),
        key@ != "difficulty"@ && key@ != "gamemode"@ ==> (if value@ == "true"@ || value@ == "false"@ {
            r == ControlKind::Switch(value@ == "true"@)
        } else {
            r is Entry
        }),
        r matches ControlKind::Choice(opts, sel) ==> match sel {
            Some(i) => i < opts@.len() && opts@[i as int]@ == normalize_spec(value@, opts@.map_values(|s: String| s@))
                && forall|j: int| 0 <= j < i ==> opts@[j]@ != normalize_spec(value@, opts@.map_values(|s: String| s@)),
            None => forall|j: int| 0 <= j < opts@.len() ==> opts@[j]@ != normalize_spec(value@, opts@.map_values(|s: String| s@)),
        },
{
    proof {
        reveal_strlit("difficulty");
        reveal_strlit("gamemode");
        assert("difficulty"@.len() != "gamemode"@.len());
    }
    if text::same(key, "difficulty") {
        let opts = difficulty_options();
        let sel = choice_index(value, &opts);
        ControlKind::Choice(opts, sel)
    } else if text::same(key, "gamemode") {
        let opts = gamemode_options();
        let sel = choice_index(value, &opts);
        ControlKind::Choice(opts, sel)
    } else if text::same(value, "true") || text::same(value, "false") {
        ControlKind::Switch(text::same(value, "true"))
    } else {
        ControlKind::Entry
    }
}

/// The value of a choice control at `selected`: the option there, or empty text.
pub fn choice_value(options: &Vec<String>, selected: usize) -> (r: String)
    ensures
        r@ == (if selected < options@.len() { options@[selected as int]@ } else { Seq::<char>::empty() }),
{
    if selected < options.len() {
        options[selected].clone()
    } else {
        String::new()
    }
}

/// The value of a switch control.
pub fn switch_value(active: bool) -> (r: String)
    ensures
        r@ == (if active { "true"@ } else { "false"@ }),
{
    if active {
        "true".to_string()
    } else {
        "false".to_string()
    }
}

/// Whether a setting applies to a running server without a restart.
pub fn is_live_key(key: &str) -> (r: bool)
    ensures
        r == (key@ == "difficulty"@ || key@ == "white-list"@),
{
    text::same(key, "difficulty") || text::same(key, "white-list")
}

/// The console command that applies a live setting: `difficulty <value>`, or
/// `whitelist on`/`whitelist off`; none for other keys.
pub fn live_command(key: &str, value: &str) -> (r: Option<String>)
    ensures
        key@ == "difficulty"@ ==> (r matches Some(c) && c@ == "difficulty "@ + value@),
        key@ == "white-list"@ ==> (r matches Some(c) && c@ == (if value@ == "true"@ {
            "whitelist on"@
        } else {
            "whitelist off"@
        })),
        key@ != "difficulty"@ && key@ != "white-list"@ ==> r is None,
{
    proof {
        reveal_strlit("difficulty");
        reveal_strlit("white-list");
        assert("difficulty"@[0] != "white-list"@[0]);
    }
    if text::same(key, "difficulty") {
        let mut out: Vec<char> = Vec::new();
        text::push_str(&mut out, "difficulty ");
        text::push_str(&mut out, value);
        Some(text::string_of(&out))
    } else if text::same(key, "white-list") {
        if text::same(value, "true") {
            Some("whitelist on".to_string())
        } else {
            Some("whitelist off".to_string())
        }
    } else {
        None
    }
}

} // verus!
