//! The rules that select libraries and arguments for the host, and the
//! substitution of placeholders in arguments.

use vstd::prelude::*;

use crate::text::{
    lemma_absent_first_char, lemma_replace_all_absent, replace_all, replace_str,
    split_whitespace_words, words,
};
use crate::version::{ArgumentEntry, Rule};

verus! {

broadcast use vstd::string::group_string_axioms;

/// The operating system family the launcher runs on.
#[derive(Debug, Clone, Copy, PartialEq, Eq)]
pub enum HostOs {
    Windows,
    MacOs,
    Linux,
}

/// The name that version descriptions use for `os`.
pub open spec fn os_name(os: HostOs) -> Seq<char> {
    match os {
        HostOs::Windows => "windows"@,
        HostOs::MacOs => "osx"@,
        HostOs::Linux => "linux"@,
    }
}

/// The name that version descriptions use for the host `os`.
pub fn current_os_name(os: HostOs) -> (r: &'static str)
    ensures
        r@ == os_name(os),
{
    match os {
        HostOs::Windows => "windows",
        HostOs::MacOs => "osx",
        HostOs::Linux => "linux",
    }
}

/// The file name of the Java executable on `os`.
pub open spec fn java_bin(os: HostOs) -> Seq<char> {
    if os is Windows {
        "java.exe"@
    } else {
        "java"@
    }
}

/// The file name of the Java executable on the host `os`.
pub fn java_bin_name(os: HostOs) -> (r: &'static str)
    ensures
        r@ == java_bin(os),
{
    if matches!(os, HostOs::Windows) {
        "java.exe"
    } else {
        "java"
    }
}

/// The separator between classpath entries on `os`.
pub open spec fn classpath_sep(os: HostOs) -> Seq<char> {
    if os is Windows {
        ";"@
    } else {
        ":"@
    }
}

/// The separator between classpath entries on the host `os`.
pub fn classpath_separator(os: HostOs) -> (r: &'static str)
    ensures
        r@ == classpath_sep(os),
{
    if matches!(os, HostOs::Windows) {
        ";"
    } else {
        ":"
    }
}

/// A rule passes on `os` unless it names another operating system, or its
/// action is `disallow`.
pub open spec fn rule_passes(rule: Rule, os: HostOs) -> bool {
    let names_other_os = match rule.os {
        Some(o) => match o.name {
            Some(n) => n@ != os_name(os),
            None => false,
        },
        None => false,
    };
    let disallows = match rule.action {
        Some(a) => a@ == "disallow"@,
        None => false,
    };
    !names_other_os && !disallows
}

/// Every rule of `rules` passes on `os`.
pub open spec fn all_rules_pass(rules: Seq<Rule>, os: HostOs) -> bool {
    forall|i: int| 0 <= i < rules.len() ==> rule_passes(#[trigger] rules[i], os)
}

/// Optional rules allow on `os` when they are absent or every one passes.
pub open spec fn rules_allow(rules: Option<Vec<Rule>>, os: HostOs) -> bool {
    match rules {
        Some(v) => all_rules_pass(v@, os),
        None => true,
    }
}

/// Rules read one after the other allow exactly when each part allows:
/// adding rules never turns an exclusion into an inclusion, and the order
/// of the rules does not matter.
pub proof fn lemma_rules_concat(a: Seq<Rule>, b: Seq<Rule>, os: HostOs)
    ensures
        all_rules_pass(a + b, os) == (all_rules_pass(a, os) && all_rules_pass(b, os)),
        all_rules_pass(a + b, os) == all_rules_pass(b + a, os),
{
    let ab = a + b;
    let ba = b + a;
    if all_rules_pass(a, os) && all_rules_pass(b, os) {
        assert forall|i: int| 0 <= i < ab.len() implies rule_passes(#[trigger] ab[i], os) by {
            if i < a.len() {
                assert(ab[i] == a[i]);
            } else {
                assert(ab[i] == b[i - a.len()]);
            }
        }
        assert forall|i: int| 0 <= i < ba.len() implies rule_passes(#[trigger] ba[i], os) by {
            if i < b.len() {
                assert(ba[i] == b[i]);
            } else {
                assert(ba[i] == a[i - b.len()]);
            }
        }
    }
    if all_rules_pass(ab, os) {
        assert forall|i: int| 0 <= i < a.len() implies rule_passes(#[trigger] a[i], os) by {
            assert(ab[i] == a[i]);
        }
        assert forall|i: int| 0 <= i < b.len() implies rule_passes(#[trigger] b[i], os) by {
            assert(ab[i + a.len()] == b[i]);
        }
    }
    if all_rules_pass(ba, os) {
        assert forall|i: int| 0 <= i < a.len() implies rule_passes(#[trigger] a[i], os) by {
            assert(ba[i + b.len()] == a[i]);
        }
        assert forall|i: int| 0 <= i < b.len() implies rule_passes(#[trigger] b[i], os) by {
            assert(ba[i] == b[i]);
        }
    }
}

/// A `disallow` rule anywhere excludes, whatever the other rules say.
pub proof fn lemma_disallow_excludes(rules: Seq<Rule>, i: int, os: HostOs)
    requires
        0 <= i < rules.len(),
        rules[i].action matches Some(a) && a@ == "disallow"@,
    ensures
        !all_rules_pass(rules, os),
{
    assert(!rule_passes(rules[i], os));
}

fn rule_passes_exec(rule: &Rule, os: HostOs, current: &String, disallow: &String) -> (b: bool)
    requires
        current@ == os_name(os),
        disallow@ == "disallow"@,
    ensures
        b == rule_passes(*rule, os),
{
    if let Some(o) = &rule.os {
        if let Some(name) = &o.name {
            if !(*name == *current) {
                return false;
            }
        }
    }
    if let Some(a) = &rule.action {
        if *a == *disallow {
            return false;
        }
    }
    true
}

/// Whether a library with these rules is used on the host `os`: the rules are
/// read in order and the first one that names another OS, or disallows,
/// excludes the library.
pub fn library_allowed_by_rules(rules: &Option<Vec<Rule>>, os: HostOs) -> (b: bool)
    ensures
        b == rules_allow(*rules, os),
{
    let list = match rules {
        Some(r) => r,
        None => return true,
    };
    let current = current_os_name(os).to_owned();
    let disallow = "disallow".to_owned();
    let n = list.len();
    let mut i: usize = 0;
    while i < n
        invariant
            i <= n,
            n == list@.len(),
            rules is Some && rules->0@ == list@,
            current@ == os_name(os),
            disallow@ == "disallow"@,
            forall|j: int| 0 <= j < i ==> rule_passes(#[trigger] list@[j], os),
        decreases n - i,
    {
        if !rule_passes_exec(&list[i], os, &current, &disallow) {
            return false;
        }
        i = i + 1;
    }
    true
}

/// A plain argument is always used; one with rules is used when they allow.
pub open spec fn entry_allowed(entry: ArgumentEntry, os: HostOs) -> bool {
    match entry {
        ArgumentEntry::String(_) => true,
        ArgumentEntry::Object { rules, .. } => rules_allow(rules, os),
    }
}

/// Whether an argument entry is used on the host `os`.
pub fn jvm_arg_allowed(entry: &ArgumentEntry, os: HostOs) -> (b: bool)
    ensures
        b == entry_allowed(*entry, os),
{
    match entry {
        ArgumentEntry::String(_) => true,
        ArgumentEntry::Object { rules, .. } => library_allowed_by_rules(rules, os),
    }
}

/// The strings an entry stands for: a plain string, or the entry's values.
pub open spec fn entry_values(entry: ArgumentEntry) -> Seq<Seq<char>> {
    match entry {
        ArgumentEntry::String(s) => seq![s@],
        ArgumentEntry::Object { value, .. } => value@.map_values(|v: String| v@),
    }
}

/// The values of the entries used on `os`, in order, each passed through `f`.
pub open spec fn expand_entries(
    entries: Seq<ArgumentEntry>,
    os: HostOs,
    f: spec_fn(Seq<char>) -> Seq<char>,
) -> Seq<Seq<char>>
    decreases entries.len(),
{
    if entries.len() == 0 {
        seq![]
    } else {
        let prev = expand_entries(entries.drop_last(), os, f);
        if entry_allowed(entries.last(), os) {
            prev + entry_values(entries.last()).map_values(f)
        } else {
            prev
        }
    }
}

/// The JVM placeholders substituted in `s`, in the order the launcher applies them.
pub open spec fn substitute_jvm(
    s: Seq<char>,
    classpath: Seq<char>,
    natives_dir: Seq<char>,
    sep: Seq<char>,
) -> Seq<char> {
    let a = replace_all(s, "${classpath_separator}"@, sep);
    let b = replace_all(a, "${classpath}"@, classpath);
    let c = replace_all(b, "${natives_directory}"@, natives_dir);
    let d = replace_all(c, "${launcher_name}"@, "mc-launcher"@);
    replace_all(d, "${launcher_version}"@, "0.1.0"@)
}

fn substitute_jvm_placeholders(s: &str, classpath: &str, natives_dir: &str, sep: &str) -> (r:
    String)
    ensures
        r@ == substitute_jvm(s@, classpath@, natives_dir@, sep@),
{
    proof {
        reveal_strlit("${classpath_separator}");
        reveal_strlit("${classpath}");
        reveal_strlit("${natives_directory}");
        reveal_strlit("${launcher_name}");
        reveal_strlit("${launcher_version}");
    }
    let a = replace_str(s, "${classpath_separator}", sep);
    let b = replace_str(a.as_str(), "${classpath}", classpath);
    let c = replace_str(b.as_str(), "${natives_directory}", natives_dir);
    let d = replace_str(c.as_str(), "${launcher_name}", "mc-launcher");
    replace_str(d.as_str(), "${launcher_version}", "0.1.0")
}

/// The game placeholders substituted in `s`, in the order the launcher applies them.
pub open spec fn substitute_game(s: Seq<char>, game_dir: Seq<char>) -> Seq<char> {
    let a = replace_all(s, "${game_directory}"@, game_dir);
    let b = replace_all(a, "${version_name}"@, "mc-launcher"@);
    let c = replace_all(b, "${assets_index}"@, "default"@);
    let d = replace_all(c, "${assets_root}"@, "assets"@);
    let e = replace_all(d, "${auth_uuid}"@, "00000000-0000-0000-0000-000000000000"@);
    let f = replace_all(e, "${auth_access_token}"@, "0"@);
    let g = replace_all(f, "${auth_session}"@, "0"@);
    let h = replace_all(g, "${user_type}"@, "legacy"@);
    replace_all(h, "${username}"@, "Player"@)
}

/// Substitutes the game placeholders of `s`: the game directory, and fixed
/// values for the version name, assets, offline authentication and user.
pub fn replace_game_vars(s: &str, game_dir: &str) -> (r: String)
    ensures
        r@ == substitute_game(s@, game_dir@),
{
    proof {
        reveal_strlit("${game_directory}");
        reveal_strlit("${version_name}");
        reveal_strlit("${assets_index}");
        reveal_strlit("${assets_root}");
        reveal_strlit("${auth_uuid}");
        reveal_strlit("${auth_access_token}");
        reveal_strlit("${auth_session}");
        reveal_strlit("${user_type}");
        reveal_strlit("${username}");
    }
    let a = replace_str(s, "${game_directory}", game_dir);
    let b = replace_str(a.as_str(), "${version_name}", "mc-launcher");
    let c = replace_str(b.as_str(), "${assets_index}", "default");
    let d = replace_str(c.as_str(), "${assets_root}", "assets");
    let e = replace_str(d.as_str(), "${auth_uuid}", "00000000-0000-0000-0000-000000000000");
    let f = replace_str(e.as_str(), "${auth_access_token}", "0");
    let g = replace_str(f.as_str(), "${auth_session}", "0");
    let h = replace_str(g.as_str(), "${user_type}", "legacy");
    replace_str(h.as_str(), "${username}", "Player")
}


/// The views of a list of strings.
pub open spec fn views(v: Seq<String>) -> Seq<Seq<char>> {
    v.map_values(|s: String| s@)
}

/// The JVM substitution with the given classpath, natives directory and separator.
pub open spec fn jvm_substitution(
    classpath: Seq<char>,
    natives_dir: Seq<char>,
    sep: Seq<char>,
) -> spec_fn(Seq<char>) -> Seq<char> {
    |v: Seq<char>| substitute_jvm(v, classpath, natives_dir, sep)
}

/// The game substitution with the given game directory.
pub open spec fn game_substitution(game_dir: Seq<char>) -> spec_fn(Seq<char>) -> Seq<char> {
    |v: Seq<char>| substitute_game(v, game_dir)
}

proof fn lemma_expand_step(
    entries: Seq<ArgumentEntry>,
    i: int,
    os: HostOs,
    f: spec_fn(Seq<char>) -> Seq<char>,
)
    requires
        0 <= i < entries.len(),
    ensures
        expand_entries(entries.take(i + 1), os, f) == if entry_allowed(entries[i], os) {
            expand_entries(entries.take(i), os, f) + entry_values(entries[i]).map_values(f)
        } else {
            expand_entries(entries.take(i), os, f)
        },
{
    assert(entries.take(i + 1).drop_last() =~= entries.take(i));
    assert(entries.take(i + 1).last() == entries[i]);
}

/// The values of the entries used on `os`, in order, with the JVM
/// placeholders substituted.
pub fn expand_jvm_args(
    args: &[ArgumentEntry],
    classpath: &str,
    natives_dir: &str,
    classpath_sep: &str,
    os: HostOs,
) -> (out: Vec<String>)
    ensures
        views(out@) == expand_entries(
            args@,
            os,
            jvm_substitution(classpath@, natives_dir@, classpath_sep@),
        ),
{
    let ghost f = jvm_substitution(classpath@, natives_dir@, classpath_sep@);
    let mut out: Vec<String> = Vec::new();
    let n = args.len();
    let mut i: usize = 0;
    assert(views(out@) =~= expand_entries(args@.take(0), os, f));
    while i < n
        invariant
            i <= n,
            n == args@.len(),
            f == jvm_substitution(classpath@, natives_dir@, classpath_sep@),
            views(out@) == expand_entries(args@.take(i as int), os, f),
        decreases n - i,
    {
        let entry = &args[i];
        proof {
            lemma_expand_step(args@, i as int, os, f);
        }
        if jvm_arg_allowed(entry, os) {
            match entry {
                ArgumentEntry::String(s) => {
                    let ghost before = views(out@);
                    let v = substitute_jvm_placeholders(s.as_str(), classpath, natives_dir, classpath_sep);
                    out.push(v);
                    assert(views(out@) =~= before + entry_values(*entry).map_values(f));
                },
                ArgumentEntry::Object { value, .. } => {
                    let ghost before = views(out@);
                    let m = value.len();
                    let mut k: usize = 0;
                    assert(views(out@) =~= before + views(value@.take(0)).map_values(f));
                    while k < m
                        invariant
                            k <= m,
                            m == value@.len(),
                            f == jvm_substitution(classpath@, natives_dir@, classpath_sep@),
                            views(out@) == before + views(value@.take(k as int)).map_values(f),
                        decreases m - k,
                    {
                        let ghost prev = views(out@);
                        let v = substitute_jvm_placeholders(value[k].as_str(), classpath, natives_dir, classpath_sep);
                        out.push(v);
                        assert(views(value@.take(k + 1)) =~= views(value@.take(k as int)).push(value@[k as int]@));
                        assert(views(out@) =~= prev.push(v@));
                        assert(views(out@) =~= before + views(value@.take(k + 1)).map_values(f));
                        k = k + 1;
                    }
                    assert(value@.take(m as int) =~= value@);
                },
            }
        }
        i = i + 1;
    }
    assert(args@.take(n as int) =~= args@);
    out
}

/// The values of the entries used on `os`, in order, with the game
/// placeholders substituted.
pub(crate) fn expand_game_args(args: &Vec<ArgumentEntry>, game_dir: &str, os: HostOs) -> (out: Vec<String>)
    ensures
        views(out@) == expand_entries(args@, os, game_substitution(game_dir@)),
{
    let ghost f = game_substitution(game_dir@);
    let mut out: Vec<String> = Vec::new();
    let n = args.len();
    let mut i: usize = 0;
    assert(views(out@) =~= expand_entries(args@.take(0), os, f));
    while i < n
        invariant
            i <= n,
            n == args@.len(),
            f == game_substitution(game_dir@),
            views(out@) == expand_entries(args@.take(i as int), os, f),
        decreases n - i,
    {
        let entry = &args[i];
        proof {
            lemma_expand_step(args@, i as int, os, f);
        }
        if jvm_arg_allowed(entry, os) {
            match entry {
                ArgumentEntry::String(s) => {
                    let ghost before = views(out@);
                    out.push(replace_game_vars(s.as_str(), game_dir));
                    assert(views(out@) =~= before + entry_values(*entry).map_values(f));
                },
                ArgumentEntry::Object { value, .. } => {
                    let ghost before = views(out@);
                    let m = value.len();
                    let mut k: usize = 0;
                    assert(views(out@) =~= before + views(value@.take(0)).map_values(f));
                    while k < m
                        invariant
                            k <= m,
                            m == value@.len(),
                            f == game_substitution(game_dir@),
                            views(out@) == before + views(value@.take(k as int)).map_values(f),
                        decreases m - k,
                    {
                        let ghost prev = views(out@);
                        let v = replace_game_vars(value[k].as_str(), game_dir);
                        out.push(v);
                        assert(views(value@.take(k + 1)) =~= views(value@.take(k as int)).push(value@[k as int]@));
                        assert(views(out@) =~= prev.push(v@));
                        assert(views(out@) =~= before + views(value@.take(k + 1)).map_values(f));
                        k = k + 1;
                    }
                    assert(value@.take(m as int) =~= value@);
                },
            }
        }
        i = i + 1;
    }
    assert(args@.take(n as int) =~= args@);
    out
}

/// The game arguments used when a version declares none.
pub open spec fn default_args(game_dir: Seq<char>) -> Seq<Seq<char>> {
    seq!["--gameDir"@, game_dir, "--username"@, "Player"@]
}

/// The game arguments used when a version declares none: the game directory
/// and the player name.
pub fn default_game_args(game_dir: &str) -> (out: Vec<String>)
    ensures
        views(out@) == default_args(game_dir@),
{
    let mut out: Vec<String> = Vec::new();
    out.push("--gameDir".to_owned());
    out.push(game_dir.to_owned());
    out.push("--username".to_owned());
    out.push("Player".to_owned());
    assert(views(out@) =~= default_args(game_dir@));
    out
}

/// The words of a legacy argument line, with the game placeholders substituted.
pub(crate) fn expand_legacy_args(line: &str, game_dir: &str) -> (out: Vec<String>)
    ensures
        views(out@) == words(line@).map_values(game_substitution(game_dir@)),
{
    let ws = split_whitespace_words(line);
    let ghost f = game_substitution(game_dir@);
    let mut out: Vec<String> = Vec::new();
    let n = ws.len();
    let mut i: usize = 0;
    while i < n
        invariant
            i <= n,
            n == ws@.len(),
            views(ws@) == words(line@),
            f == game_substitution(game_dir@),
            views(out@) == views(ws@.take(i as int)).map_values(f),
        decreases n - i,
    {
        let ghost prev = views(out@);
        let v = replace_game_vars(ws[i].as_str(), game_dir);
        out.push(v);
        assert(views(ws@.take(i + 1)) =~= views(ws@.take(i as int)).push(ws@[i as int]@));
        assert(views(out@) =~= prev.push(v@));
        assert(views(out@) =~= views(ws@.take(i + 1)).map_values(f));
        i = i + 1;
    }
    assert(ws@.take(n as int) =~= ws@);
    out
}


/// An argument without a `$` passes through the JVM substitution unchanged.
pub proof fn lemma_jvm_substitution_keeps_plain(
    s: Seq<char>,
    classpath: Seq<char>,
    natives_dir: Seq<char>,
    sep: Seq<char>,
)
    requires
        !s.contains('$'),
    ensures
        substitute_jvm(s, classpath, natives_dir, sep) == s,
{
    reveal_strlit("${classpath_separator}");
    reveal_strlit("${classpath}");
    reveal_strlit("${natives_directory}");
    reveal_strlit("${launcher_name}");
    reveal_strlit("${launcher_version}");
    lemma_keeps_plain(s, "${classpath_separator}"@, sep);
    lemma_keeps_plain(s, "${classpath}"@, classpath);
    lemma_keeps_plain(s, "${natives_directory}"@, natives_dir);
    lemma_keeps_plain(s, "${launcher_name}"@, "mc-launcher"@);
    lemma_keeps_plain(s, "${launcher_version}"@, "0.1.0"@);
}

/// An argument without a `$` passes through the game substitution unchanged.
pub proof fn lemma_game_substitution_keeps_plain(s: Seq<char>, game_dir: Seq<char>)
    requires
        !s.contains('$'),
    ensures
        substitute_game(s, game_dir) == s,
{
    reveal_strlit("${game_directory}");
    reveal_strlit("${version_name}");
    reveal_strlit("${assets_index}");
    reveal_strlit("${assets_root}");
    reveal_strlit("${auth_uuid}");
    reveal_strlit("${auth_access_token}");
    reveal_strlit("${auth_session}");
    reveal_strlit("${user_type}");
    reveal_strlit("${username}");
    lemma_keeps_plain(s, "${game_directory}"@, game_dir);
    lemma_keeps_plain(s, "${version_name}"@, "mc-launcher"@);
    lemma_keeps_plain(s, "${assets_index}"@, "default"@);
    lemma_keeps_plain(s, "${assets_root}"@, "assets"@);
    lemma_keeps_plain(s, "${auth_uuid}"@, "00000000-0000-0000-0000-000000000000"@);
    lemma_keeps_plain(s, "${auth_access_token}"@, "0"@);
    lemma_keeps_plain(s, "${auth_session}"@, "0"@);
    lemma_keeps_plain(s, "${user_type}"@, "legacy"@);
    lemma_keeps_plain(s, "${username}"@, "Player"@);
}

proof fn lemma_keeps_plain(s: Seq<char>, pat: Seq<char>, rep: Seq<char>)
    requires
        !s.contains('$'),
        pat.len() > 0,
        pat[0] == '$',
    ensures
        replace_all(s, pat, rep) == s,
{
    lemma_absent_first_char(s, pat);
    lemma_replace_all_absent(s, pat, rep);
}

} // verus!
