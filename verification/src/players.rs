//! Who is online, as read from a server's log.

use vstd::prelude::*;
use crate::order::{self, lex_lt, strictly_sorted, texts};
use crate::text::{self, after_last_spec, contains_spec, first_occurrence, trim_spec};

verus! {

/// The name in a log line announcing an event with `marker` (such as ` joined the game`):
/// the last word before the marker, after any `]: ` prefix, provided it is not empty and has
/// no `[`.
pub open spec fn extract_name_spec(line: Seq<char>, marker: Seq<char>) -> Option<Seq<char>> {
    if contains_spec(line, marker) {
        let idx = choose|i: int| first_occurrence(line, marker, i);
        let before = line.subrange(0, idx);
        let after_meta = after_last_spec(before, "]: "@);
        let name = trim_spec(after_last_spec(trim_spec(after_meta), " "@));
        if name.len() == 0 || contains_spec(name, "["@) {
            None
        } else {
            Some(name)
        }
    } else {
        None
    }
}

/// One entry of a `list` reply, cleaned: surrounding white space and trailing dots removed.
pub open spec fn clean_entry(piece: Seq<char>) -> Seq<char> {
    trim_spec(text::trim_end_matches_spec(trim_spec(piece), "."@))
}

/// The names in the part of a `list` reply after `players online:`.
pub open spec fn roster_names(rest: Seq<char>) -> Set<Seq<char>> {
    let pieces = text::split_spec(rest, ',');
    Set::new(|n: Seq<char>| n.len() > 0 && exists|k: int| 0 <= k < pieces.len() && clean_entry(pieces[k]) == n)
}

/// The online set after one log line: a `list` reply replaces it, a join adds, a leave removes.
pub open spec fn online_step(online: Set<Seq<char>>, line: Seq<char>) -> Set<Seq<char>> {
    if contains_spec(line, "players online:"@) {
        let idx = choose|i: int| first_occurrence(line, "players online:"@, i);
        roster_names(line.subrange(idx + "players online:"@.len(), line.len() as int))
    } else if extract_name_spec(line, " joined the game"@) is Some {
        online.insert(extract_name_spec(line, " joined the game"@)->0)
    } else if extract_name_spec(line, " left the game"@) is Some {
        online.remove(extract_name_spec(line, " left the game"@)->0)
    } else {
        online
    }
}

/// The online set after the given log lines, starting from nobody.
pub open spec fn online_after(lines: Seq<Seq<char>>) -> Set<Seq<char>>
    decreases lines.len(),
{
    if lines.len() == 0 {
        Set::empty()
    } else {
        online_step(online_after(lines.drop_last()), lines.last())
    }
}

/// A `list` reply decides the online set by itself: whoever was online before it does not matter.
pub proof fn law_list_reply_authoritative(before1: Set<Seq<char>>, before2: Set<Seq<char>>, line: Seq<char>)
    requires
        contains_spec(line, "players online:"@),
    ensures
        online_step(before1, line) == online_step(before2, line),
{
}

/// After a `list` reply (whose `players online:` first occurs at `i`), the players online are
/// exactly the cleaned, non-empty comma-separated entries after it, the first entry included,
/// whatever the earlier log said.
pub proof fn law_list_reply_names(lines: Seq<Seq<char>>, line: Seq<char>, i: int)
    requires
        first_occurrence(line, "players online:"@, i),
    ensures
        forall|k: int|
            0 <= k < text::split_spec(line.subrange(i + 15, line.len() as int), ',').len()
                && clean_entry(#[trigger] text::split_spec(line.subrange(i + 15, line.len() as int), ',')[k]).len() > 0
                ==> online_after(lines.push(line)).contains(
                clean_entry(text::split_spec(line.subrange(i + 15, line.len() as int), ',')[k]),
            ),
        forall|n: Seq<char>| #[trigger] online_after(lines.push(line)).contains(n) ==> n.len() > 0 && exists|k: int|
            0 <= k < text::split_spec(line.subrange(i + 15, line.len() as int), ',').len()
                && clean_entry(#[trigger] text::split_spec(line.subrange(i + 15, line.len() as int), ',')[k]) == n,
{
    reveal_strlit("players online:");
    assert(lines.push(line).drop_last() =~= lines);
    assert(lines.push(line).last() == line);
    assert(contains_spec(line, "players online:"@));
    let j = choose|j: int| first_occurrence(line, "players online:"@, j);
    assert(j == i) by {
        if j < i {} else if j > i {}
    }
    let pieces = text::split_spec(line.subrange(i + 15, line.len() as int), ',');
    assert forall|k: int|
        0 <= k < pieces.len() && clean_entry(#[trigger] pieces[k]).len() > 0
            implies online_after(lines.push(line)).contains(clean_entry(pieces[k])) by {
        assert(roster_names(line.subrange(i + 15, line.len() as int)).contains(clean_entry(pieces[k])));
    }
}

/// A line that is neither a `list` reply, a join nor a leave changes nothing.
pub proof fn law_other_lines_keep_set(online: Set<Seq<char>>, line: Seq<char>)
    requires
        !contains_spec(line, "players online:"@),
        extract_name_spec(line, " joined the game"@) is None,
        extract_name_spec(line, " left the game"@) is None,
    ensures
        online_step(online, line) == online,
{
}

/// The name a log line announces with `marker`, if any.
pub fn extract_name(line: &[char], marker: &str) -> (r: Option<Vec<char>>)
    ensures
        match r {
            Some(n) => extract_name_spec(line@, marker@) == Some(n@),
            None => extract_name_spec(line@, marker@) is None,
        },
{
    let m = text::chars_of(marker);
    let idx = match text::find(line, &m) {
        Some(i) => i,
        None => return None,
    };
    proof {
        let j = choose|i: int| first_occurrence(line@, marker@, i);
        assert(j == idx as int) by {
            if j < idx {} else if j > idx {}
        }
    }
    let before = text::slice_chars(line, 0, idx);
    let meta_sep = text::chars_of("]: ");
    let after_meta = text::after_last(&before, &meta_sep);
    let t = text::trim(&after_meta);
    let space = text::chars_of(" ");
    let last_word = text::after_last(&t, &space);
    let name = text::trim(&last_word);
    let bracket = text::chars_of("[");
    if name.len() == 0 {
        return None;
    }
    match text::find(&name, &bracket) {
        Some(_) => None,
        None => Some(name),
    }
}

/// Inserts into `online` every cleaned, non-empty entry of a `list` reply.
fn read_roster(rest: &[char]) -> (r: Vec<Vec<char>>)
    ensures
        strictly_sorted(texts(r@)),
        texts(r@).to_set() == roster_names(rest@),
{
    let pieces = text::split_char(rest, ',');
    let ghost ps = text::split_spec(rest@, ',');
    let mut out: Vec<Vec<char>> = Vec::new();
    let dot = text::chars_of(".");
    let mut k: usize = 0;
    assert(texts(out@).to_set() =~= Set::<Seq<char>>::empty());
    while k < pieces.len()
        invariant
            pieces@.len() == ps.len(),
            forall|m: int| 0 <= m < pieces@.len() ==> #[trigger] pieces@[m]@ == ps[m],
            dot@ == "."@,
            k <= pieces@.len(),
            strictly_sorted(texts(out@)),
            texts(out@).to_set() == Set::new(|n: Seq<char>| n.len() > 0 && exists|j: int| 0 <= j < k && clean_entry(ps[j]) == n),
        decreases pieces.len() - k,
    {
        let a = text::trim(&pieces[k]);
        let b = text::trim_end_matches(&a, &dot);
        let c = text::trim(&b);
        let ghost before = texts(out@).to_set();
        if c.len() > 0 {
            order::sorted_insert(&mut out, c);
        }
        proof {
            assert(c@ == clean_entry(ps[k as int]));
            assert forall|n: Seq<char>| texts(out@).to_set().contains(n) <==> (n.len() > 0 && exists|j: int| 0 <= j < k + 1 && clean_entry(ps[j]) == n) by {
                if n.len() > 0 && exists|j: int| 0 <= j < k + 1 && clean_entry(ps[j]) == n {
                    let j = choose|j: int| 0 <= j < k + 1 && clean_entry(ps[j]) == n;
                    if j < k {
                        assert(before.contains(n));
                    }
                }
                if before.contains(n) {
                    let j = choose|j: int| 0 <= j < k && clean_entry(ps[j]) == n;
                    assert(0 <= j < k + 1);
                }
            }
            assert(texts(out@).to_set() =~= Set::new(|n: Seq<char>| n.len() > 0 && exists|j: int| 0 <= j < k + 1 && clean_entry(ps[j]) == n));
        }
        k = k + 1;
    }
    assert(roster_names(rest@) =~= Set::new(|n: Seq<char>| n.len() > 0 && exists|j: int| 0 <= j < pieces@.len() && clean_entry(ps[j]) == n));
    out
}

/// The players online according to a server log `content`, in ascending order without
/// repetitions: the last `list` reply, updated by later joins and leaves.
pub fn parse_online(content: &str) -> (r: Vec<String>)
    ensures
        strictly_sorted(r@.map_values(|s: String| s@)),
        r@.map_values(|s: String| s@).to_set() == online_after(text::lines_spec(content@)),
{
    let chars = text::chars_of(content);
    let ls = text::lines(&chars);
    let ghost lspec = text::lines_spec(content@);
    let mut online: Vec<Vec<char>> = Vec::new();
    let marker = text::chars_of("players online:");
    let mut k: usize = 0;
    assert(lspec.take(0) =~= Seq::<Seq<char>>::empty());
    assert(texts(online@).to_set() =~= Set::<Seq<char>>::empty());
    while k < ls.len()
        invariant
            ls@.len() == lspec.len(),
            forall|m: int| 0 <= m < ls@.len() ==> #[trigger] ls@[m]@ == lspec[m],
            marker@ == "players online:"@,
            k <= ls@.len(),
            strictly_sorted(texts(online@)),
            texts(online@).to_set() == online_after(lspec.take(k as int)),
        decreases ls.len() - k,
    {
        let line = &ls[k];
        let ghost prev = texts(online@).to_set();
        proof {
            assert(lspec.take(k + 1).drop_last() =~= lspec.take(k as int));
            assert(lspec.take(k + 1).last() == line@);
        }
        match text::find(line, &marker) {
            Some(idx) => {
                proof {
                    let j = choose|i: int| first_occurrence(line@, "players online:"@, i);
                    assert(j == idx as int) by {
                        if j < idx {} else if j > idx {}
                    }
                }
                assert(idx + marker@.len() <= line@.len() == line.len());
                let rest = text::slice_chars(line, idx + marker.len(), line.len());
                online = read_roster(&rest);
            },
            None => {
                match extract_name(line, " joined the game") {
                    Some(n) => {
                        order::sorted_insert(&mut online, n);
                    },
                    None => {
                        match extract_name(line, " left the game") {
                            Some(n) => {
                                order::sorted_remove(&mut online, &n);
                            },
                            None => {},
                        }
                    },
                }
            },
        }
        k = k + 1;
    }
    assert(lspec.take(ls@.len() as int) =~= lspec);
    let mut out: Vec<String> = Vec::new();
    let mut i: usize = 0;
    while i < online.len()
        invariant
            i <= online@.len(),
            out@.map_values(|s: String| s@) == texts(online@).take(i as int),
        decreases online.len() - i,
    {
        let s = text::string_of(&online[i]);
        let ghost before = out@;
        out.push(s);
        proof {
            assert(s@ == texts(online@)[i as int]);
            assert(out@ == before.push(s));
            assert(out@.map_values(|s: String| s@) =~= before.map_values(|s: String| s@).push(s@));
        }
        i = i + 1;
        assert(out@.map_values(|s: String| s@) =~= texts(online@).take(i as int));
    }
    assert(texts(online@).take(online@.len() as int) =~= texts(online@));
    out
}

/// Whether a player name, lower-cased, matches a search text, lower-cased: an empty search
/// matches everyone, otherwise the name must contain it.
pub fn lowered_matches(name_lower: &str, filter_lower: &str) -> (r: bool)
    ensures
        r == (filter_lower@.len() == 0 || contains_spec(name_lower@, filter_lower@)),
{
    let f = text::chars_of(filter_lower);
    if f.len() == 0 {
        return true;
    }
    text::contains(name_lower, filter_lower)
}

/// Whether `name` matches the search text `filter`, compared in Unicode lower case.
pub fn player_matches(name: &str, filter: &str) -> (r: bool)
    ensures
        r == (text::unicode_lower(filter@).len() == 0
            || contains_spec(text::unicode_lower(name@), text::unicode_lower(filter@))),
{
    let nl = text::to_lowercase(name);
    let fl = text::to_lowercase(filter);
    lowered_matches(nl.as_str(), fl.as_str())
}

} // verus!
