//! Laws of the launcher stated over what the operations take and give: which
//! rules pass on which host, which libraries and arguments reach the launch
//! command, and how the legacy argument line becomes game arguments.

use vstd::prelude::*;

use crate::plan::{
    declared_jvm_args, game_args_for, is_java_in, library_artifact, memory_flags,
    plain_join_case, selected_artifacts, with_classpath_fallback,
};
use crate::runtime::{
    all_rules_pass, classpath_sep, entry_allowed, entry_values, expand_entries, java_bin,
    jvm_substitution, rule_passes, rules_allow, substitute_game, substitute_jvm, HostOs,
};
use crate::text::words;
use crate::version::{ArgumentEntry, Library, Rule, VersionJson};

verus! {

broadcast use vstd::string::group_string_axioms;

/// `n` is the name version descriptions give to the host `os`: `windows`,
/// `osx` or `linux`.
pub open spec fn is_host_name(n: Seq<char>, os: HostOs) -> bool {
    match os {
        HostOs::Windows => n == "windows"@,
        HostOs::MacOs => n == "osx"@,
        HostOs::Linux => n == "linux"@,
    }
}

/// `rule` allows, and only on the OS named `n`.
pub open spec fn allows_only_on(rule: Rule, n: Seq<char>) -> bool {
    &&& rule.action matches Some(a) && a@ == "allow"@
    &&& rule.os matches Some(o) && o.name matches Some(name) && name@ == n
}

/// A rule that allows on the host's own OS name passes on that host, on every
/// host; one that names another host's OS does not.
pub proof fn lemma_rule_for_own_host_passes(rule: Rule, n: Seq<char>, os: HostOs, other: HostOs)
    requires
        allows_only_on(rule, n),
    ensures
        is_host_name(n, os) ==> rule_passes(rule, os),
        is_host_name(n, other) && other != os ==> !rule_passes(rule, os),
{
    reveal_strlit("allow");
    reveal_strlit("disallow");
    reveal_strlit("windows");
    reveal_strlit("osx");
    reveal_strlit("linux");
    assert("allow"@.len() == 5 && "disallow"@.len() == 8);
    assert("windows"@.len() == 7 && "osx"@.len() == 3 && "linux"@.len() == 5);
    let a = rule.action->0;
    assert(a@ != "disallow"@);
    let name = rule.os->0.name->0;
    if is_host_name(n, os) {
        assert(name@ == crate::runtime::os_name(os));
    }
    if is_host_name(n, other) && other != os {
        assert(name@ != crate::runtime::os_name(os));
    }
}

/// Rules that each allow only on the host's own OS allow on that host.
pub proof fn lemma_rules_for_own_host_allow(rules: Seq<Rule>, n: Seq<char>, os: HostOs)
    requires
        is_host_name(n, os),
        forall|r: int| 0 <= r < rules.len() ==> allows_only_on(#[trigger] rules[r], n),
    ensures
        all_rules_pass(rules, os),
{
    assert forall|r: int| 0 <= r < rules.len() implies rule_passes(#[trigger] rules[r], os) by {
        lemma_rule_for_own_host_passes(rules[r], n, os, os);
    }
}

/// The Java executable is `java.exe` on Windows and `java` on every other host.
pub proof fn lemma_java_binary_name(os: HostOs)
    ensures
        os is Windows ==> java_bin(os) == "java.exe"@,
        !(os is Windows) ==> java_bin(os) == "java"@,
        java_bin(os) == "java.exe"@ <==> os is Windows,
{
    reveal_strlit("java.exe");
    reveal_strlit("java");
    assert("java.exe"@.len() != "java"@.len());
}

/// The Java candidate inside an installation ends with the executable's name
/// for the host: `java` on macOS and Linux, `java.exe` on Windows.
pub proof fn lemma_java_candidate_ends_with_binary(dir: Seq<char>, os: HostOs, c: Seq<char>)
    requires
        is_java_in(dir, os, c),
        plain_join_case(dir, "bin"@),
    ensures
        c.len() >= java_bin(os).len(),
        c.skip(c.len() - java_bin(os).len()) == java_bin(os),
        !(os is Windows) ==> c.skip(c.len() - 4) == "java"@,
{
    reveal_strlit("bin");
    reveal_strlit("java");
    reveal_strlit("java.exe");
    let bin = choose|bin: Seq<char>|
        crate::plan::is_path_join(dir, "bin"@, bin) && crate::plan::is_path_join(
            bin,
            java_bin(os),
            c,
        );
    let jb = java_bin(os);
    assert(bin == dir + seq!['/'] + "bin"@ || bin == dir + seq!['\\'] + "bin"@);
    assert(bin.len() > 0 && bin.last() == 'n' && bin[0] == dir[0]);
    assert(plain_join_case(bin, jb));
    assert(c == bin + seq!['/'] + jb || c == bin + seq!['\\'] + jb);
    assert(c.skip(c.len() - jb.len()) =~= jb);
    lemma_java_binary_name(os);
}

/// Every value of an argument entry that is used on `os` appears, passed
/// through `f`, among the expanded arguments.
pub proof fn lemma_expand_keeps_allowed_values(
    entries: Seq<ArgumentEntry>,
    os: HostOs,
    f: spec_fn(Seq<char>) -> Seq<char>,
    i: int,
    k: int,
)
    requires
        0 <= i < entries.len(),
        entry_allowed(entries[i], os),
        0 <= k < entry_values(entries[i]).len(),
    ensures
        exists|x: int|
            0 <= x < expand_entries(entries, os, f).len() && expand_entries(entries, os, f)[x]
                == f(entry_values(entries[i])[k]),
    decreases entries.len(),
{
    let prev = entries.drop_last();
    let out = expand_entries(entries, os, f);
    let pout = expand_entries(prev, os, f);
    if i == entries.len() - 1 {
        let x = pout.len() + k;
        assert(out[x] == f(entry_values(entries[i])[k]));
    } else {
        assert(prev[i] == entries[i]);
        lemma_expand_keeps_allowed_values(prev, os, f, i, k);
        let x = choose|x: int| 0 <= x < pout.len() && pout[x] == f(entry_values(prev[i])[k]);
        assert(out[x] == pout[x]);
    }
}

/// The JVM arguments of a launch keep every value of a declared JVM entry that
/// is guarded only by rules allowing the host's own OS (such as a macOS-only
/// entry on macOS), with the JVM placeholders substituted.
pub proof fn lemma_plan_keeps_host_jvm_args(
    version: VersionJson,
    classpath: Seq<char>,
    natives_dir: Seq<char>,
    memory_mb: Option<u32>,
    os: HostOs,
    n: Seq<char>,
    jvm: Seq<ArgumentEntry>,
    i: int,
    rules: Seq<Rule>,
    value: Seq<Seq<char>>,
    k: int,
)
    requires
        version.arguments matches Some(a) && a.jvm matches Some(j) && j@ == jvm,
        0 <= i < jvm.len(),
        jvm[i] matches ArgumentEntry::Object { value: vs, rules: Some(rs) } && rs@ == rules
            && vs@.map_values(|v: String| v@) == value,
        is_host_name(n, os),
        forall|r: int| 0 <= r < rules.len() ==> allows_only_on(#[trigger] rules[r], n),
        0 <= k < value.len(),
    ensures
        ({
            let args = with_classpath_fallback(
                memory_flags(memory_mb) + declared_jvm_args(version, classpath, natives_dir, os),
                natives_dir,
                classpath,
            );
            exists|x: int|
                0 <= x < args.len() && args[x] == substitute_jvm(
                    value[k],
                    classpath,
                    natives_dir,
                    classpath_sep(os),
                )
        }),
{
    lemma_rules_for_own_host_allow(rules, n, os);
    assert(entry_allowed(jvm[i], os));
    assert(entry_values(jvm[i]) == value);
    let f = jvm_substitution(classpath, natives_dir, classpath_sep(os));
    lemma_expand_keeps_allowed_values(jvm, os, f, i, k);
    let declared = declared_jvm_args(version, classpath, natives_dir, os);
    assert(declared == expand_entries(jvm, os, f));
    let x = choose|x: int| 0 <= x < declared.len() && declared[x] == f(value[k]);
    let mem = memory_flags(memory_mb);
    let both = mem + declared;
    assert(both[mem.len() + x] == declared[x]);
    let args = with_classpath_fallback(both, natives_dir, classpath);
    assert(args.take(both.len() as int) =~= both) by {
        crate::plan::lemma_fallback_keeps_args_and_adds_classpath(both, natives_dir, classpath);
    }
    assert(args[mem.len() + x] == both.take(both.len() as int)[mem.len() + x]);
}

/// Every library whose rules allow on `os`, that declares no natives and that
/// has an artifact contributes that artifact to the launch, whatever its name.
pub proof fn lemma_usable_library_is_selected(libs: Seq<Library>, os: HostOs, i: int)
    requires
        0 <= i < libs.len(),
        rules_allow(libs[i].rules, os),
        !libs[i].has_natives,
        libs[i].downloads matches Some(d) && d.artifact is Some,
    ensures
        library_artifact(libs[i], os) == libs[i].downloads->0.artifact,
        exists|k: int|
            0 <= k < selected_artifacts(libs, os).len() && Some(selected_artifacts(libs, os)[k])
                == libs[i].downloads->0.artifact,
    decreases libs.len(),
{
    let prev = libs.drop_last();
    let sel = selected_artifacts(libs, os);
    let psel = selected_artifacts(prev, os);
    if i == libs.len() - 1 {
        assert(libs.last() == libs[i]);
        assert(sel[psel.len() as int] == libs[i].downloads->0.artifact->0);
    } else {
        assert(prev[i] == libs[i]);
        lemma_usable_library_is_selected(prev, os, i);
        let k = choose|k: int| 0 <= k < psel.len() && Some(psel[k]) == prev[i].downloads->0.artifact;
        assert(sel[k] == psel[k]);
    }
}

/// Without an argument section, the game arguments are the words of the
/// legacy line, one argument per word and in order, each with the game
/// placeholders substituted: a substituted value that holds whitespace stays
/// one argument.
pub proof fn lemma_legacy_args_are_substituted_words(
    version: VersionJson,
    game_dir: Seq<char>,
    os: HostOs,
    line: Seq<char>,
)
    requires
        version.arguments is None,
        version.minecraft_arguments_legacy matches Some(l) && l@ == line,
    ensures
        game_args_for(version, game_dir, os).len() == words(line).len(),
        forall|i: int|
            0 <= i < words(line).len() ==> #[trigger] game_args_for(version, game_dir, os)[i]
                == substitute_game(words(line)[i], game_dir),
{
}

} // verus!
