//! The launch plan of a version: directories, downloads, classpath, JVM and
//! game arguments, and the choice of the Java executable.

use vstd::prelude::*;

use crate::runtime::{
    classpath_sep, classpath_separator, default_args, default_game_args,
    expand_entries, expand_game_args, expand_jvm_args, expand_legacy_args, game_substitution,
    java_bin, java_bin_name, jvm_substitution, library_allowed_by_rules, rules_allow, views,
    HostOs,
};
use crate::text::{contains_str, decimal, has_substr, u32_to_decimal, words};
use crate::version::{Artifact, Library, VersionJson};

verus! {

broadcast use vstd::string::group_string_axioms;

/// `part` is a relative path without a root or a drive on every platform:
/// non-empty, not starting with a separator, without `:` second.
pub open spec fn plain_part(part: Seq<char>) -> bool {
    &&& part.len() > 0
    &&& part[0] != '/'
    &&& part[0] != '\\'
    &&& !(part.len() >= 2 && part[1] == ':')
}

/// The cases in which joining `part` onto `base` is a plain concatenation
/// with one separator on every platform: `base` non-empty, neither a bare
/// drive nor ending in a separator nor starting like a verbatim prefix, and
/// `part` plain.
pub open spec fn plain_join_case(base: Seq<char>, part: Seq<char>) -> bool {
    &&& base.len() > 0
    &&& base[0] != '\\'
    &&& base.last() != '/'
    &&& base.last() != '\\'
    &&& base.last() != ':'
    &&& plain_part(part)
}

/// The cases in which joining `part` onto `base` adds no separator on every
/// platform: `base` ends in `/`, which every platform takes as a separator,
/// does not start like a verbatim prefix, and `part` is plain.
pub open spec fn slash_join_case(base: Seq<char>, part: Seq<char>) -> bool {
    &&& base.len() > 0
    &&& base[0] != '\\'
    &&& base.last() == '/'
    &&& plain_part(part)
}

/// `joined` is what joining `part` onto `base` gives, as far as it holds on
/// every platform: in the plain cases, `base`, one separator (`/`, or `\` on
/// Windows), then `part`; when `base` already ends in `/`, `base` then `part`.
pub open spec fn is_path_join(base: Seq<char>, part: Seq<char>, joined: Seq<char>) -> bool {
    &&& plain_join_case(base, part) ==> (joined == base + seq!['/'] + part || joined == base
        + seq!['\\'] + part)
    &&& slash_join_case(base, part) ==> joined == base + part
}

/// Calls `std::path::Path::join` on `base` and `part` and renders the result
/// with `to_string_lossy`. The contract claims two cases with a relative
/// `part`: std documents the joined path as `base` followed by the platform
/// separator and `part`, and adds no separator when `base` already ends in
/// one (`/` is one on every platform). It leaves unsaid which separator is
/// added, and what absolute parts, drive prefixes, verbatim prefixes and a
/// trailing `\` give, since those differ between platforms.
#[verifier::external_body]
pub(crate) fn join_path(base: &str, part: &str) -> (joined: String)
    ensures
        is_path_join(base@, part@, joined@),
{
    std::path::Path::new(base).join(part).to_string_lossy().into_owned()
}

/// A file to fetch before the game starts.
#[derive(Debug, Clone, PartialEq, Eq)]
pub struct Download {
    pub url: String,
    pub path: String,
}

/// The jar a library contributes to the classpath on `os`: none when its
/// rules exclude it, when it declares natives, or when it has no artifact.
pub open spec fn library_artifact(lib: Library, os: HostOs) -> Option<Artifact> {
    if rules_allow(lib.rules, os) && !lib.has_natives {
        match lib.downloads {
            Some(d) => d.artifact,
            None => None,
        }
    } else {
        None
    }
}

/// The jars the libraries contribute on `os`, in order.
pub open spec fn selected_artifacts(libs: Seq<Library>, os: HostOs) -> Seq<Artifact>
    decreases libs.len(),
{
    if libs.len() == 0 {
        seq![]
    } else {
        let prev = selected_artifacts(libs.drop_last(), os);
        match library_artifact(libs.last(), os) {
            Some(a) => prev.push(a),
            None => prev,
        }
    }
}

/// The target paths of `downloads`.
pub open spec fn download_paths(downloads: Seq<Download>) -> Seq<Seq<char>> {
    downloads.map_values(|d: Download| d.path@)
}

/// `parts` joined with `sep` between consecutive parts.
pub open spec fn join_with(parts: Seq<Seq<char>>, sep: Seq<char>) -> Seq<char>
    decreases parts.len(),
{
    if parts.len() == 0 {
        seq![]
    } else if parts.len() == 1 {
        parts[0]
    } else {
        join_with(parts.drop_last(), sep) + sep + parts.last()
    }
}

/// The heap flags for an optional memory limit: the maximum heap is the
/// limit and the initial heap is the limit capped at 256 megabytes.
pub open spec fn memory_flags(memory_mb: Option<u32>) -> Seq<Seq<char>> {
    match memory_mb {
        Some(mb) => seq![
            "-Xmx"@ + decimal(mb as nat) + "M"@,
            "-Xms"@ + decimal(if mb < 256 { mb as nat } else { 256 }) + "M"@,
        ],
        None => seq![],
    }
}

/// The JVM arguments a version declares, expanded for `os`.
pub open spec fn declared_jvm_args(
    version: VersionJson,
    classpath: Seq<char>,
    natives_dir: Seq<char>,
    os: HostOs,
) -> Seq<Seq<char>> {
    match version.arguments {
        Some(a) => match a.jvm {
            Some(j) => expand_entries(
                j@,
                os,
                jvm_substitution(classpath, natives_dir, classpath_sep(os)),
            ),
            None => seq![],
        },
        None => seq![],
    }
}

/// Whether some argument mentions the classpath flag `-cp`.
pub open spec fn has_classpath_flag(args: Seq<Seq<char>>) -> bool {
    exists|i: int| 0 <= i < args.len() && has_substr(#[trigger] args[i], "-cp"@)
}

/// `args`, followed, when none of them mentions `-cp`, by the native library
/// path and the classpath.
pub open spec fn with_classpath_fallback(
    args: Seq<Seq<char>>,
    natives_dir: Seq<char>,
    classpath: Seq<char>,
) -> Seq<Seq<char>> {
    if has_classpath_flag(args) {
        args
    } else {
        args + seq!["-Djava.library.path="@ + natives_dir, "-cp"@, classpath]
    }
}

/// The game arguments of a version on `os`: its declared game arguments, or,
/// without an argument section, the words of its legacy argument line, with
/// the game placeholders substituted; the default arguments otherwise.
pub open spec fn game_args_for(version: VersionJson, game_dir: Seq<char>, os: HostOs) -> Seq<
    Seq<char>,
> {
    match version.arguments {
        Some(a) => match a.game {
            Some(g) => expand_entries(g@, os, game_substitution(game_dir)),
            None => default_args(game_dir),
        },
        None => match version.minecraft_arguments_legacy {
            Some(l) => words(l@).map_values(game_substitution(game_dir)),
            None => default_args(game_dir),
        },
    }
}

/// Everything the launcher does for a version besides the file system,
/// network and process work: where files go, what to fetch, and the command.
#[derive(Debug, Clone, PartialEq, Eq)]
pub struct RunPlan {
    pub versions_dir: String,
    pub libraries_dir: String,
    pub natives_dir: String,
    pub client_jar: String,
    /// The client jar first, then each selected library jar, in order.
    pub downloads: Vec<Download>,
    pub classpath: String,
    pub jvm_args: Vec<String>,
    pub main_class: String,
    pub game_args: Vec<String>,
}


proof fn lemma_selected_step(libs: Seq<Library>, i: int, os: HostOs)
    requires
        0 <= i < libs.len(),
    ensures
        selected_artifacts(libs.take(i + 1), os) == match library_artifact(libs[i], os) {
            Some(a) => selected_artifacts(libs.take(i), os).push(a),
            None => selected_artifacts(libs.take(i), os),
        },
{
    assert(libs.take(i + 1).drop_last() =~= libs.take(i));
    assert(libs.take(i + 1).last() == libs[i]);
}

/// Every jar put on the classpath comes, in order, from a library that its
/// rules allow on `os`, that declares no natives and that has an artifact.
pub proof fn lemma_selected_come_from_allowed_libraries(libs: Seq<Library>, os: HostOs)
    ensures
        forall|k: int|
            0 <= k < selected_artifacts(libs, os).len() ==> exists|i: int|
                0 <= i < libs.len() && rules_allow(libs[i].rules, os) && !libs[i].has_natives
                    && library_artifact(libs[i], os) == Some(
                    #[trigger] selected_artifacts(libs, os)[k],
                ),
    decreases libs.len(),
{
    if libs.len() > 0 {
        let prev = libs.drop_last();
        lemma_selected_come_from_allowed_libraries(prev, os);
        let sel = selected_artifacts(libs, os);
        let psel = selected_artifacts(prev, os);
        assert forall|k: int| 0 <= k < sel.len() implies exists|i: int|
            0 <= i < libs.len() && rules_allow(libs[i].rules, os) && !libs[i].has_natives
                && library_artifact(libs[i], os) == Some(#[trigger] sel[k]) by {
            if k < psel.len() {
                assert(sel[k] == psel[k]);
                let i = choose|i: int|
                    0 <= i < prev.len() && rules_allow(prev[i].rules, os) && !prev[i].has_natives
                        && library_artifact(prev[i], os) == Some(#[trigger] psel[k]);
                assert(libs[i] == prev[i]);
            } else {
                let i = libs.len() - 1;
                assert(libs[i] == libs.last());
            }
        }
    }
}

/// `downloads` starts with the client jar and then fetches each of
/// `selected`'s jars into the libraries directory, in order.
pub open spec fn downloads_match(
    downloads: Seq<Download>,
    client_url: Seq<char>,
    client_jar: Seq<char>,
    libraries_dir: Seq<char>,
    selected: Seq<Artifact>,
) -> bool {
    &&& downloads.len() == selected.len() + 1
    &&& downloads[0].url@ == client_url
    &&& downloads[0].path@ == client_jar
    &&& forall|k: int|
        0 <= k < selected.len() ==> {
            &&& downloads[k + 1].url@ == (#[trigger] selected[k]).url@
            &&& is_path_join(libraries_dir, selected[k].path@, downloads[k + 1].path@)
        }
}

/// The downloads of a version: the client jar, then the jar of each library
/// that is used on `os`, has no natives and has an artifact.
fn plan_downloads(
    version: &VersionJson,
    client_jar: &String,
    libraries_dir: &String,
    os: HostOs,
) -> (downloads: Vec<Download>)
    ensures
        downloads_match(
            downloads@,
            version.downloads.client.url@,
            client_jar@,
            libraries_dir@,
            selected_artifacts(version.libraries@, os),
        ),
{
    let libs = &version.libraries;
    let mut downloads: Vec<Download> = Vec::new();
    downloads.push(Download { url: version.downloads.client.url.clone(), path: client_jar.clone() });
    let n = libs.len();
    let mut i: usize = 0;
    while i < n
        invariant
            i <= n,
            n == libs@.len(),
            libs@ == version.libraries@,
            downloads_match(
                downloads@,
                version.downloads.client.url@,
                client_jar@,
                libraries_dir@,
                selected_artifacts(libs@.take(i as int), os),
            ),
        decreases n - i,
    {
        let lib = &libs[i];
        proof {
            lemma_selected_step(libs@, i as int, os);
        }
        if library_allowed_by_rules(&lib.rules, os) && !lib.has_natives {
            if let Some(d) = &lib.downloads {
                if let Some(artifact) = &d.artifact {
                    let path = join_path(libraries_dir.as_str(), artifact.path.as_str());
                    let ghost before = downloads@;
                    downloads.push(Download { url: artifact.url.clone(), path });
                    proof {
                        let sel = selected_artifacts(libs@.take(i + 1), os);
                        assert forall|k: int| 0 <= k < sel.len() implies {
                            &&& downloads@[k + 1].url@ == (#[trigger] sel[k]).url@
                            &&& is_path_join(libraries_dir@, sel[k].path@, downloads@[k + 1].path@)
                        } by {
                            if k < sel.len() - 1 {
                                assert(downloads@[k + 1] == before[k + 1]);
                            }
                        }
                    }
                }
            }
        }
        i = i + 1;
    }
    assert(libs@.take(n as int) =~= libs@);
    downloads
}

/// The target paths of `downloads` joined with `sep`.
fn join_download_paths(downloads: &Vec<Download>, sep: &str) -> (r: String)
    ensures
        r@ == join_with(download_paths(downloads@), sep@),
{
    let ghost paths = download_paths(downloads@);
    let mut r = String::new();
    let n = downloads.len();
    let mut i: usize = 0;
    assert(paths.take(0) =~= Seq::<Seq<char>>::empty());
    while i < n
        invariant
            i <= n,
            n == downloads@.len(),
            paths == download_paths(downloads@),
            r@ == join_with(paths.take(i as int), sep@),
        decreases n - i,
    {
        assert(paths.take(i + 1).drop_last() =~= paths.take(i as int));
        if i == 0 {
            assert(paths.take(1) =~= seq![downloads@[0].path@]);
        }
        if i != 0 {
            r.append(sep);
        }
        r.append(downloads[i].path.as_str());
        i = i + 1;
    }
    assert(paths.take(n as int) =~= paths);
    r
}

/// `prefix`, the decimal rendering of `n`, then `M`.
fn heap_flag(prefix: &str, n: u32) -> (r: String)
    ensures
        r@ == prefix@ + decimal(n as nat) + "M"@,
{
    let mut r = prefix.to_owned();
    let d = u32_to_decimal(n);
    r.append(d.as_str());
    r.append("M");
    r
}

/// Whether some argument mentions `-cp`.
fn mentions_classpath_flag(args: &Vec<String>) -> (b: bool)
    ensures
        b == has_classpath_flag(views(args@)),
{
    let n = args.len();
    let mut i: usize = 0;
    while i < n
        invariant
            i <= n,
            n == args@.len(),
            forall|j: int| 0 <= j < i ==> !has_substr(#[trigger] views(args@)[j], "-cp"@),
        decreases n - i,
    {
        if contains_str(args[i].as_str(), "-cp") {
            assert(has_substr(views(args@)[i as int], "-cp"@));
            return true;
        }
        i = i + 1;
    }
    false
}

/// Plans a run of `version` in `game_dir` on `os`: the version, libraries and
/// natives directories, the client and library downloads, the classpath, the
/// JVM arguments (heap flags, the declared JVM arguments, and the classpath
/// fallback) and the game arguments.
pub fn prepare_run(version: &VersionJson, game_dir: &str, memory_mb: Option<u32>, os: HostOs) -> (plan:
    RunPlan)
    ensures
        exists|v: Seq<char>|
            is_path_join(game_dir@, "versions"@, v) && is_path_join(
                v,
                version.id@,
                plan.versions_dir@,
            ),
        is_path_join(game_dir@, "libraries"@, plan.libraries_dir@),
        is_path_join(plan.versions_dir@, version.id@ + ".jar"@, plan.client_jar@),
        is_path_join(plan.versions_dir@, "natives"@, plan.natives_dir@),
        downloads_match(
            plan.downloads@,
            version.downloads.client.url@,
            plan.client_jar@,
            plan.libraries_dir@,
            selected_artifacts(version.libraries@, os),
        ),
        plan.classpath@ == join_with(download_paths(plan.downloads@), classpath_sep(os)),
        views(plan.jvm_args@) == with_classpath_fallback(
            memory_flags(memory_mb) + declared_jvm_args(
                *version,
                plan.classpath@,
                plan.natives_dir@,
                os,
            ),
            plan.natives_dir@,
            plan.classpath@,
        ),
        plan.main_class@ == version.main_class@,
        views(plan.game_args@) == game_args_for(*version, game_dir@, os),
        has_classpath_flag(views(plan.jvm_args@)),
        plan.classpath@.take(plan.client_jar@.len() as int) == plan.client_jar@,
{
    let versions_root = join_path(game_dir, "versions");
    let versions_dir = join_path(versions_root.as_str(), version.id.as_str());
    let libraries_dir = join_path(game_dir, "libraries");
    let mut jar_name = version.id.clone();
    jar_name.append(".jar");
    let client_jar = join_path(versions_dir.as_str(), jar_name.as_str());
    let natives_dir = join_path(versions_dir.as_str(), "natives");

    let sep = classpath_separator(os);
    let downloads = plan_downloads(version, &client_jar, &libraries_dir, os);
    let classpath = join_download_paths(&downloads, sep);

    let mut jvm_args: Vec<String> = Vec::new();
    if let Some(mb) = memory_mb {
        jvm_args.push(heap_flag("-Xmx", mb));
        let initial = if mb < 256 { mb } else { 256 };
        jvm_args.push(heap_flag("-Xms", initial));
    }
    assert(views(jvm_args@) =~= memory_flags(memory_mb));
    if let Some(args) = &version.arguments {
        if let Some(jvm) = &args.jvm {
            let mut declared = expand_jvm_args(
                jvm.as_slice(),
                classpath.as_str(),
                natives_dir.as_str(),
                sep,
                os,
            );
            let ghost before = jvm_args@;
            let ghost added = declared@;
            jvm_args.append(&mut declared);
            assert(views(jvm_args@) =~= views(before) + views(added));
        }
    }
    assert(views(jvm_args@) =~= memory_flags(memory_mb) + declared_jvm_args(
        *version,
        classpath@,
        natives_dir@,
        os,
    ));
    if jvm_args.len() == 0 || !mentions_classpath_flag(&jvm_args) {
        let ghost before = views(jvm_args@);
        let mut lib_path = "-Djava.library.path=".to_owned();
        lib_path.append(natives_dir.as_str());
        jvm_args.push(lib_path);
        jvm_args.push("-cp".to_owned());
        jvm_args.push(classpath.clone());
        assert(views(jvm_args@) =~= before + seq![
            "-Djava.library.path="@ + natives_dir@,
            "-cp"@,
            classpath@,
        ]);
    }

    let game_args = match &version.arguments {
        Some(args) => match &args.game {
            Some(game) => expand_game_args(game, game_dir, os),
            None => default_game_args(game_dir),
        },
        None => match &version.minecraft_arguments_legacy {
            Some(legacy) => expand_legacy_args(legacy.as_str(), game_dir),
            None => default_game_args(game_dir),
        },
    };

    proof {
        lemma_fallback_keeps_args_and_adds_classpath(
            memory_flags(memory_mb) + declared_jvm_args(*version, classpath@, natives_dir@, os),
            natives_dir@,
            classpath@,
        );
        lemma_join_starts_with_first(download_paths(downloads@), classpath_sep(os));
        assert(download_paths(downloads@)[0] == client_jar@);
    }
    RunPlan {
        versions_dir,
        libraries_dir,
        natives_dir,
        client_jar,
        downloads,
        classpath,
        jvm_args,
        main_class: version.main_class.clone(),
        game_args,
    }
}


/// Decides what a file download gives: nothing to report when the status was
/// a success, else the message `"download failed <status>: <url>"`.
pub fn checked_download_status(success: bool, status: &str, url: &str) -> (r: Result<(), String>)
    ensures
        success ==> r is Ok,
        !success ==> (r matches Err(m) && m@ == "download failed "@ + status@ + ": "@ + url@),
{
    if !success {
        let mut m = "download failed ".to_owned();
        m.append(status);
        m.append(": ");
        m.append(url);
        return Err(m);
    }
    Ok(())
}

/// `candidate` is where a Java installation at `dir` keeps its executable:
/// `dir`, then `bin`, then the executable's name on `os`.
pub open spec fn is_java_in(dir: Seq<char>, os: HostOs, candidate: Seq<char>) -> bool {
    exists|bin: Seq<char>|
        is_path_join(dir, "bin"@, bin) && is_path_join(bin, java_bin(os), candidate)
}

/// The Java executable of the installation at `dir` on `os`.
pub fn java_in_dir(dir: &str, os: HostOs) -> (r: String)
    ensures
        is_java_in(dir@, os, r@),
{
    let bin = join_path(dir, "bin");
    join_path(bin.as_str(), java_bin_name(os))
}

/// The paths to try for the Java executable, in order: a given path itself
/// and then the executable inside it; without one, the executable inside
/// `JAVA_HOME` when that is set; otherwise none.
pub fn java_candidates(custom: &Option<String>, java_home: &Option<String>, os: HostOs) -> (r: Vec<
    String,
>)
    ensures
        custom matches Some(p) ==> (r@.len() == 2 && r@[0]@ == p@ && is_java_in(p@, os, r@[1]@)),
        custom is None ==> match java_home {
            Some(h) => r@.len() == 1 && is_java_in(h@, os, r@[0]@),
            None => r@.len() == 0,
        },
{
    let mut r: Vec<String> = Vec::new();
    match custom {
        Some(p) => {
            r.push(p.clone());
            r.push(java_in_dir(p.as_str(), os));
        },
        None => {
            if let Some(h) = java_home {
                r.push(java_in_dir(h.as_str(), os));
            }
        },
    }
    r
}

/// A path tried for the Java executable, and whether it is a file.
#[derive(Debug, Clone, PartialEq, Eq)]
pub struct JavaProbe {
    pub path: String,
    pub is_file: bool,
}

/// `i` is the first probe that found a file.
pub open spec fn is_first_file(probes: Seq<JavaProbe>, i: int) -> bool {
    &&& 0 <= i < probes.len()
    &&& probes[i].is_file
    &&& forall|j: int| 0 <= j < i ==> !(#[trigger] probes[j]).is_file
}

/// Chooses the Java executable from the probed candidates: the first that is
/// a file; when none is, an error naming the given path, or, without one,
/// `java` from the search path.
pub fn select_java(custom: &Option<String>, probes: &Vec<JavaProbe>) -> (r: Result<String, String>)
    ensures
        forall|i: int| is_first_file(probes@, i) ==> r == Ok::<String, String>(probes@[i].path),
        (forall|i: int| 0 <= i < probes@.len() ==> !(#[trigger] probes@[i]).is_file) ==> match custom {
            Some(p) => r matches Err(m) && m@ == "Java not found at "@ + p@,
            None => r matches Ok(j) && j@ == "java"@,
        },
{
    let n = probes.len();
    let mut i: usize = 0;
    while i < n
        invariant
            i <= n,
            n == probes@.len(),
            forall|j: int| 0 <= j < i ==> !(#[trigger] probes@[j]).is_file,
        decreases n - i,
    {
        if probes[i].is_file {
            assert(is_first_file(probes@, i as int));
            assert forall|k: int| is_first_file(probes@, k) implies k == i by {
                if k < i {
                } else if k > i {
                    assert(!probes@[i as int].is_file);
                }
            }
            return Ok(probes[i].path.clone());
        }
        i = i + 1;
    }
    match custom {
        Some(p) => {
            let mut m = "Java not found at ".to_owned();
            m.append(p.as_str());
            Err(m)
        },
        None => Ok("java".to_owned()),
    }
}


/// The classpath fallback keeps every argument, in order, and leaves the
/// command with a `-cp` flag whatever the version declares.
pub proof fn lemma_fallback_keeps_args_and_adds_classpath(
    args: Seq<Seq<char>>,
    natives_dir: Seq<char>,
    classpath: Seq<char>,
)
    ensures
        with_classpath_fallback(args, natives_dir, classpath).take(args.len() as int) == args,
        has_classpath_flag(with_classpath_fallback(args, natives_dir, classpath)),
{
    let r = with_classpath_fallback(args, natives_dir, classpath);
    assert(r.take(args.len() as int) =~= args);
    if !has_classpath_flag(args) {
        let k = args.len() as int + 1;
        assert(r[k] == "-cp"@);
        lemma_self_occurs("-cp"@);
        assert(has_substr(r[k], "-cp"@));
    }
}

proof fn lemma_self_occurs(s: Seq<char>)
    ensures
        has_substr(s, s),
{
    assert(s.subrange(0, s.len() as int) =~= s);
    assert(crate::text::occurs_at(s, s, 0));
}

/// A classpath begins with its first entry: the client jar comes first.
pub proof fn lemma_join_starts_with_first(parts: Seq<Seq<char>>, sep: Seq<char>)
    requires
        parts.len() > 0,
    ensures
        join_with(parts, sep).len() >= parts[0].len(),
        join_with(parts, sep).take(parts[0].len() as int) == parts[0],
    decreases parts.len(),
{
    if parts.len() > 1 {
        let prev = parts.drop_last();
        lemma_join_starts_with_first(prev, sep);
        let j = join_with(parts, sep);
        assert(j == join_with(prev, sep) + sep + parts.last());
        assert(j.take(parts[0].len() as int) =~= join_with(prev, sep).take(parts[0].len() as int));
    }
}

} // verus!
