//! Plugin files in a server's `plugins` directory: naming, enabling, listing, importing.

use vstd::prelude::*;
use crate::order::{self, sorted, texts};
use crate::paths;
use crate::text::{self, ends_with_spec, trim_end_matches_spec};

verus! {

/// Whether a plugin file is switched off (its name ends in `.disabled`).
pub open spec fn is_disabled_spec(file: Seq<char>) -> bool {
    ends_with_spec(file, ".disabled"@)
}

/// Name shown for a plugin file: without any `.disabled` suffix.
pub fn display_name(file: &str) -> (r: String)
    ensures
        r@ == trim_end_matches_spec(file@, ".disabled"@),
{
    let f = text::chars_of(file);
    let suffix = text::chars_of(".disabled");
    let t = text::trim_end_matches(&f, &suffix);
    text::string_of(&t)
}

/// Whether a plugin file is switched off.
pub fn is_disabled(file: &str) -> (r: bool)
    ensures
        r == is_disabled_spec(file@),
{
    let f = text::chars_of(file);
    let suffix = text::chars_of(".disabled");
    text::ends_with(&f, &suffix)
}

/// The plugin's base name without `.disabled` and `.jar` suffixes: the name of its
/// configuration folder before lower-casing.
pub open spec fn config_base_spec(file: Seq<char>) -> Seq<char> {
    trim_end_matches_spec(trim_end_matches_spec(file, ".disabled"@), ".jar"@)
}

/// The plugin's configuration folder name: its base name in lower case
/// (`Nullsleep.jar` has `nullsleep`).
pub fn config_folder_name(file: &str) -> (r: String)
    ensures
        r@ == text::unicode_lower(config_base_spec(file@)),
{
    let f = text::chars_of(file);
    let d = text::chars_of(".disabled");
    let j = text::chars_of(".jar");
    let a = text::trim_end_matches(&f, &d);
    let b = text::trim_end_matches(&a, &j);
    let base = text::string_of(&b);
    text::to_lowercase(base.as_str())
}

/// Whether a file name is a plugin, enabled (`.jar`) or switched off (`.jar.disabled`).
pub open spec fn is_plugin_name(name: Seq<char>) -> bool {
    ends_with_spec(name, ".jar"@) || ends_with_spec(name, ".jar.disabled"@)
}

/// Whether a file name is a plugin.
pub fn is_plugin_file(name: &str) -> (r: bool)
    ensures
        r == is_plugin_name(name@),
{
    let n = text::chars_of(name);
    let a = text::chars_of(".jar");
    let b = text::chars_of(".jar.disabled");
    text::ends_with(&n, &a) || text::ends_with(&n, &b)
}

/// The plugin names among `names`, in order.
pub open spec fn plugin_names(names: Seq<Seq<char>>) -> Seq<Seq<char>>
    decreases names.len(),
{
    if names.len() == 0 {
        names
    } else if is_plugin_name(names.last()) {
        plugin_names(names.drop_last()).push(names.last())
    } else {
        plugin_names(names.drop_last())
    }
}

/// The plugin files among the file names of a directory, in ascending order.
pub fn plugin_files(names: Vec<String>) -> (r: Vec<String>)
    ensures
        sorted(r@.map_values(|s: String| s@)),
        r@.map_values(|s: String| s@).to_multiset()
            == plugin_names(names@.map_values(|s: String| s@)).to_multiset(),
{
    broadcast use vstd::seq_lib::group_to_multiset_ensures;
    let ghost all = names@.map_values(|s: String| s@);
    let mut out: Vec<Vec<char>> = Vec::new();
    let mut i: usize = 0;
    assert(all.take(0) =~= Seq::<Seq<char>>::empty());
    assert(texts(out@) =~= Seq::<Seq<char>>::empty());
    while i < names.len()
        invariant
            all == names@.map_values(|s: String| s@),
            i <= names@.len(),
            sorted(texts(out@)),
            texts(out@).to_multiset() == plugin_names(all.take(i as int)).to_multiset(),
        decreases names.len() - i,
    {
        proof {
            assert(all.take(i + 1).drop_last() =~= all.take(i as int));
            assert(all.take(i + 1).last() == names@[i as int]@);
        }
        if is_plugin_file(names[i].as_str()) {
            let c = text::chars_of(names[i].as_str());
            assert(c@ == names@[i as int]@);
            let ghost before = texts(out@);
            order::sorted_insert_dup(&mut out, c);
            assert(texts(out@).to_multiset() == before.to_multiset().insert(c@));
            assert(plugin_names(all.take(i + 1)) == plugin_names(all.take(i as int)).push(names@[i as int]@));
            proof {
                vstd::seq_lib::to_multiset_build(plugin_names(all.take(i as int)), c@);
            }
        } else {
            assert(plugin_names(all.take(i + 1)) == plugin_names(all.take(i as int)));
        }
        i = i + 1;
    }
    assert(all.take(names@.len() as int) =~= all);
    let mut res: Vec<String> = Vec::new();
    let mut k: usize = 0;
    while k < out.len()
        invariant
            k <= out@.len(),
            res@.map_values(|s: String| s@) == texts(out@).take(k as int),
        decreases out.len() - k,
    {
        let s = text::string_of(&out[k]);
        let ghost before = res@;
        res.push(s);
        proof {
            assert(s@ == texts(out@)[k as int]);
            assert(res@.map_values(|s: String| s@) =~= before.map_values(|s: String| s@).push(s@));
        }
        k = k + 1;
        assert(res@.map_values(|s: String| s@) =~= texts(out@).take(k as int));
    }
    assert(texts(out@).take(out@.len() as int) =~= texts(out@));
    res
}

/// The path a plugin file gets when switched on (`.disabled` suffixes removed) or off
/// (`.disabled` appended unless already there).
pub open spec fn toggled_path_spec(path: Seq<char>, enable: bool) -> Seq<char> {
    if enable {
        trim_end_matches_spec(path, ".disabled"@)
    } else if ends_with_spec(path, ".disabled"@) {
        path
    } else {
        path + ".disabled"@
    }
}

/// The path a plugin file is renamed to when it is switched on or off.
pub fn toggled_path(path: &str, enable: bool) -> (r: String)
    ensures
        r@ == toggled_path_spec(path@, enable),
{
    let p = text::chars_of(path);
    let suffix = text::chars_of(".disabled");
    if enable {
        let t = text::trim_end_matches(&p, &suffix);
        text::string_of(&t)
    } else if text::ends_with(&p, &suffix) {
        text::string_of(&p)
    } else {
        let mut out = p;
        text::push_str(&mut out, ".disabled");
        text::string_of(&out)
    }
}

/// Switching a plugin off and on again gives back its enabled path, and switching an enabled
/// plugin off then on returns it to where it was.
pub proof fn law_toggle_round_trip(path: Seq<char>)
    requires
        !ends_with_spec(path, ".disabled"@),
    ensures
        toggled_path_spec(toggled_path_spec(path, false), true) == path,
{
    let d = ".disabled"@;
    let q = path + d;
    assert(q.subrange(q.len() - d.len(), q.len() as int) =~= d);
    assert(q.subrange(0, q.len() - d.len()) =~= path);
    reveal_with_fuel(trim_end_matches_spec, 2);
}

/// The file name a dropped plugin gets in the plugin directory: `<stem>.jar`, or
/// `<stem>_<n>.jar` for the `n`-th alternative when that name is taken.
pub open spec fn import_name_spec(stem: Seq<char>, n: nat) -> Seq<char> {
    if n == 0 {
        stem + ".jar"@
    } else {
        stem + "_"@ + text::decimal_spec(n) + ".jar"@
    }
}

/// The `n`-th candidate file name for a dropped plugin with stem `stem`.
pub fn import_name(stem: &str, n: u64) -> (r: String)
    ensures
        r@ == import_name_spec(stem@, n as nat),
{
    let mut out: Vec<char> = Vec::new();
    text::push_str(&mut out, stem);
    if n > 0 {
        text::push_str(&mut out, "_");
        let d = text::decimal(n);
        text::push_chars(&mut out, &d);
    }
    text::push_str(&mut out, ".jar");
    text::string_of(&out)
}

proof fn lemma_decimal_len(n: nat)
    ensures
        text::decimal_spec(n).len() >= 1,
        text::decimal_spec(n).len() == 1 <==> n < 10,
    decreases n,
{
    if n >= 10 {
        lemma_decimal_len(n / 10);
    }
}

proof fn lemma_decimal_injective(n: nat, m: nat)
    requires
        text::decimal_spec(n) == text::decimal_spec(m),
    ensures
        n == m,
    decreases n,
{
    lemma_decimal_len(n);
    lemma_decimal_len(m);
    let d = text::decimal_spec(n);
    if n < 10 {
        assert(d[0] == text::digit_char(n) && d[0] == text::digit_char(m));
        assert((n + 48) as u32 == (m + 48) as u32);
    } else {
        assert(d.last() == text::digit_char(n % 10) && d.last() == text::digit_char(m % 10));
        assert((n % 10 + 48) as u32 == (m % 10 + 48) as u32);
        assert(d.drop_last() == text::decimal_spec(n / 10));
        assert(d.drop_last() == text::decimal_spec(m / 10));
        lemma_decimal_injective(n / 10, m / 10);
    }
}

/// Different alternatives give different file names, so the search for a free name tries a
/// new name each time.
pub proof fn law_import_names_distinct(stem: Seq<char>, n: nat, m: nat)
    requires
        n != m,
    ensures
        import_name_spec(stem, n) != import_name_spec(stem, m),
{
    reveal_strlit(".jar");
    reveal_strlit("_");
    let a = import_name_spec(stem, n);
    let b = import_name_spec(stem, m);
    if a == b {
        if n == 0 || m == 0 {
            let k = stem.len() as int;
            assert(a[k] == '.' || a[k] == '_');
            if n == 0 {
                assert(a[k] == '.');
                assert(b[k] == '_');
            } else {
                assert(a[k] == '_');
                assert(b[k] == '.');
            }
        } else {
            let da = text::decimal_spec(n);
            let db = text::decimal_spec(m);
            let start = stem.len() as int + 1;
            assert(a.subrange(start, a.len() - 4) =~= da);
            assert(b.subrange(start, b.len() - 4) =~= db);
            lemma_decimal_injective(n, m);
        }
    }
}

/// The stem under which a dropped file is imported: only files with the extension `jar` are
/// imported, under their file stem (`plugin` where there is none).
pub open spec fn import_stem_spec(src: Seq<char>) -> Option<Seq<char>> {
    if paths::extension_of(src) == Some("jar"@) {
        match paths::file_stem_of(src) {
            Some(s) => Some(s),
            None => Some("plugin"@),
        }
    } else {
        None
    }
}

/// The stem under which the dropped file `src` is imported, or `None` when it is no `.jar`.
pub fn import_stem(src: &str) -> (r: Option<String>)
    ensures
        match r {
            Some(s) => import_stem_spec(src@) == Some(s@),
            None => import_stem_spec(src@) is None,
        },
{
    let is_jar = match paths::extension(src) {
        Some(e) => text::same(e.as_str(), "jar"),
        None => false,
    };
    if !is_jar {
        return None;
    }
    match paths::file_stem(src) {
        Some(s) => Some(s),
        None => Some("plugin".to_string()),
    }
}

} // verus!
