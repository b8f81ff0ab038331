use mc_launcher_core::plan::{checked_download_status, java_candidates, prepare_run, select_java, JavaProbe};
use mc_launcher_core::runtime::{
    classpath_separator, current_os_name, default_game_args, expand_jvm_args, java_bin_name,
    jvm_arg_allowed, library_allowed_by_rules, replace_game_vars, HostOs,
};
use mc_launcher_core::version::{
    Arguments, ArgumentEntry, Artifact, ClientDownload, Downloads, Library, LibraryDownloads,
    OsRule, Rule, VersionJson,
};

fn s(x: &str) -> String {
    x.to_string()
}

fn os_rule(name: &str) -> Rule {
    Rule { action: Some(s("allow")), os: Some(OsRule { name: Some(s(name)), arch: None }) }
}

fn disallow() -> Rule {
    Rule { action: Some(s("disallow")), os: None }
}

#[test]
fn os_names_and_binaries() {
    assert_eq!(current_os_name(HostOs::Windows), "windows");
    assert_eq!(current_os_name(HostOs::MacOs), "osx");
    assert_eq!(current_os_name(HostOs::Linux), "linux");
    assert_eq!(java_bin_name(HostOs::Windows), "java.exe");
    assert_eq!(java_bin_name(HostOs::Linux), "java");
    assert_eq!(classpath_separator(HostOs::Windows), ";");
    assert_eq!(classpath_separator(HostOs::MacOs), ":");
}

#[test]
fn no_rules_allow() {
    assert!(library_allowed_by_rules(&None, HostOs::Linux));
    assert!(library_allowed_by_rules(&Some(vec![]), HostOs::Linux));
}

#[test]
fn rule_for_other_os_excludes() {
    let rules = Some(vec![os_rule("osx")]);
    assert!(!library_allowed_by_rules(&rules, HostOs::Linux));
    assert!(library_allowed_by_rules(&rules, HostOs::MacOs));
}

#[test]
fn disallow_rule_excludes() {
    assert!(!library_allowed_by_rules(&Some(vec![disallow()]), HostOs::Linux));
    assert!(!library_allowed_by_rules(&Some(vec![os_rule("linux"), disallow()]), HostOs::Linux));
}

#[test]
fn rule_without_os_name_passes() {
    let r = Rule { action: Some(s("allow")), os: Some(OsRule { name: None, arch: Some(s("x86")) }) };
    assert!(library_allowed_by_rules(&Some(vec![r]), HostOs::Windows));
    let no_action = Rule { action: None, os: None };
    assert!(library_allowed_by_rules(&Some(vec![no_action]), HostOs::Windows));
}

#[test]
fn adding_rules_never_reallows() {
    // Law: allowed(a ++ b) == allowed(a) && allowed(b).
    let a = vec![os_rule("linux")];
    let b = vec![disallow()];
    let mut ab = a.clone();
    ab.extend(b.clone());
    for os in [HostOs::Linux, HostOs::Windows] {
        assert_eq!(
            library_allowed_by_rules(&Some(ab.clone()), os),
            library_allowed_by_rules(&Some(a.clone()), os)
                && library_allowed_by_rules(&Some(b.clone()), os)
        );
    }
}

#[test]
fn plain_arguments_are_always_allowed() {
    assert!(jvm_arg_allowed(&ArgumentEntry::String(s("-Xss1M")), HostOs::Windows));
    let guarded = ArgumentEntry::Object { value: vec![s("-XstartOnFirstThread")], rules: Some(vec![os_rule("osx")]) };
    assert!(!jvm_arg_allowed(&guarded, HostOs::Linux));
    assert!(jvm_arg_allowed(&guarded, HostOs::MacOs));
    let unguarded = ArgumentEntry::Object { value: vec![s("-a")], rules: None };
    assert!(jvm_arg_allowed(&unguarded, HostOs::Linux));
}

#[test]
fn jvm_placeholders_are_substituted() {
    let args = vec![
        ArgumentEntry::String(s("-Djava.library.path=${natives_directory}")),
        ArgumentEntry::Object { value: vec![s("-XstartOnFirstThread")], rules: Some(vec![os_rule("osx")]) },
        ArgumentEntry::String(s("-Dminecraft.launcher.brand=${launcher_name}")),
        ArgumentEntry::String(s("-Dminecraft.launcher.version=${launcher_version}")),
        ArgumentEntry::String(s("-cp")),
        ArgumentEntry::String(s("${classpath}")),
        ArgumentEntry::Object { value: vec![s("a${classpath_separator}b"), s("plain")], rules: None },
    ];
    let out = expand_jvm_args(&args, "x.jar:y.jar", "/n", ":", HostOs::Linux);
    assert_eq!(
        out,
        vec![
            s("-Djava.library.path=/n"),
            s("-Dminecraft.launcher.brand=mc-launcher"),
            s("-Dminecraft.launcher.version=0.1.0"),
            s("-cp"),
            s("x.jar:y.jar"),
            s("a:b"),
            s("plain"),
        ]
    );
}

#[test]
fn separator_is_substituted_before_classpath() {
    // The separator placeholder is replaced first, so a classpath that
    // contains it verbatim keeps it.
    let args = vec![ArgumentEntry::String(s("${classpath}"))];
    let out = expand_jvm_args(&args, "a${classpath_separator}b", "/n", ";", HostOs::Windows);
    assert_eq!(out, vec![s("a${classpath_separator}b")]);
}

#[test]
fn game_placeholders_are_substituted() {
    let line = "--gameDir ${game_directory} --version ${version_name} --assetIndex ${assets_index} \
                --assetsDir ${assets_root} --uuid ${auth_uuid} --accessToken ${auth_access_token} \
                --session ${auth_session} --userType ${user_type} --username ${username}";
    assert_eq!(
        replace_game_vars(line, "/g"),
        "--gameDir /g --version mc-launcher --assetIndex default --assetsDir assets \
         --uuid 00000000-0000-0000-0000-000000000000 --accessToken 0 --session 0 \
         --userType legacy --username Player"
    );
}

#[test]
fn arguments_without_placeholders_pass_unchanged() {
    for a in ["--demo", "-Xss1M", "{not a placeholder}", ""] {
        assert_eq!(replace_game_vars(a, "/g"), a);
        assert_eq!(
            expand_jvm_args(&[ArgumentEntry::String(s(a))], "cp", "/n", ":", HostOs::Linux),
            vec![s(a)]
        );
    }
}

#[test]
fn default_game_arguments() {
    assert_eq!(default_game_args("/g"), vec![s("--gameDir"), s("/g"), s("--username"), s("Player")]);
}

fn artifact(path: &str) -> Artifact {
    Artifact { path: s(path), url: format!("https://libs.example/{}", path), sha1: s("0"), size: 1 }
}

fn library(name: &str, art: Option<Artifact>, rules: Option<Vec<Rule>>, natives: bool) -> Library {
    Library {
        name: s(name),
        downloads: Some(LibraryDownloads { artifact: art }),
        rules,
        has_natives: natives,
    }
}

fn version(arguments: Option<Arguments>, legacy: Option<String>) -> VersionJson {
    VersionJson {
        id: s("1.20.1"),
        main_class: s("net.minecraft.client.main.Main"),
        arguments,
        minecraft_arguments_legacy: legacy,
        libraries: vec![
            library("a", Some(artifact("org/a/a.jar")), None, false),
            library("mac-only", Some(artifact("org/m/m.jar")), Some(vec![os_rule("osx")]), false),
            library("natives", Some(artifact("org/n/n.jar")), None, true),
            library("no-artifact", None, None, false),
            Library { name: s("no-downloads"), downloads: None, rules: None, has_natives: false },
            library("b", Some(artifact("org/b/b.jar")), Some(vec![os_rule("linux")]), false),
        ],
        downloads: Downloads {
            client: ClientDownload { url: s("https://client.example/c.jar"), sha1: s("0"), size: 1 },
        },
    }
}

#[test]
fn plan_paths_downloads_and_classpath() {
    let v = version(None, None);
    let plan = prepare_run(&v, "/games/mc", None, HostOs::Linux);
    assert_eq!(plan.versions_dir, "/games/mc/versions/1.20.1");
    assert_eq!(plan.libraries_dir, "/games/mc/libraries");
    assert_eq!(plan.natives_dir, "/games/mc/versions/1.20.1/natives");
    assert_eq!(plan.client_jar, "/games/mc/versions/1.20.1/1.20.1.jar");
    let got: Vec<(String, String)> = plan.downloads.iter().map(|d| (d.url.clone(), d.path.clone())).collect();
    assert_eq!(
        got,
        vec![
            (s("https://client.example/c.jar"), s("/games/mc/versions/1.20.1/1.20.1.jar")),
            (s("https://libs.example/org/a/a.jar"), s("/games/mc/libraries/org/a/a.jar")),
            (s("https://libs.example/org/b/b.jar"), s("/games/mc/libraries/org/b/b.jar")),
        ]
    );
    assert_eq!(
        plan.classpath,
        "/games/mc/versions/1.20.1/1.20.1.jar:/games/mc/libraries/org/a/a.jar:/games/mc/libraries/org/b/b.jar"
    );
    assert!(plan.classpath.starts_with(&plan.client_jar));
    assert_eq!(plan.main_class, "net.minecraft.client.main.Main");
}

#[test]
fn plan_without_arguments_uses_fallback_and_defaults() {
    let v = version(None, None);
    let plan = prepare_run(&v, "/games/mc", Some(2048), HostOs::Linux);
    assert_eq!(
        plan.jvm_args,
        vec![
            s("-Xmx2048M"),
            s("-Xms256M"),
            s("-Djava.library.path=/games/mc/versions/1.20.1/natives"),
            s("-cp"),
            plan.classpath.clone(),
        ]
    );
    assert_eq!(plan.game_args, vec![s("--gameDir"), s("/games/mc"), s("--username"), s("Player")]);
}

#[test]
fn small_memory_limit_sets_both_heaps() {
    let plan = prepare_run(&version(None, None), "/g", Some(100), HostOs::Linux);
    assert_eq!(plan.jvm_args[0], "-Xmx100M");
    assert_eq!(plan.jvm_args[1], "-Xms100M");
}

#[test]
fn declared_classpath_flag_suppresses_fallback() {
    let args = Arguments {
        jvm: Some(vec![ArgumentEntry::String(s("-cp")), ArgumentEntry::String(s("${classpath}"))]),
        game: Some(vec![
            ArgumentEntry::String(s("--gameDir")),
            ArgumentEntry::String(s("${game_directory}")),
            ArgumentEntry::Object { value: vec![s("--demo")], rules: Some(vec![disallow()]) },
        ]),
    };
    let plan = prepare_run(&version(Some(args), None), "/g", None, HostOs::Linux);
    assert_eq!(plan.jvm_args, vec![s("-cp"), plan.classpath.clone()]);
    assert_eq!(plan.game_args, vec![s("--gameDir"), s("/g")]);
}

#[test]
fn arguments_without_game_section_use_defaults() {
    let args = Arguments { jvm: None, game: None };
    let plan = prepare_run(&version(Some(args), Some(s("--legacy ignored"))), "/g", None, HostOs::Linux);
    assert_eq!(plan.game_args, vec![s("--gameDir"), s("/g"), s("--username"), s("Player")]);
    assert_eq!(plan.jvm_args[1], "-cp");
}

#[test]
fn legacy_argument_line_is_split_and_substituted() {
    let legacy = s("--username ${auth_player_name}  --gameDir ${game_directory}\t--userType ${user_type}");
    let plan = prepare_run(&version(None, Some(legacy)), "/g", None, HostOs::Linux);
    assert_eq!(
        plan.game_args,
        vec![s("--username"), s("${auth_player_name}"), s("--gameDir"), s("/g"), s("--userType"), s("legacy")]
    );
}

#[test]
fn classpath_flag_is_always_present() {
    for v in [version(None, None), version(Some(Arguments { jvm: Some(vec![]), game: None }), None)] {
        let plan = prepare_run(&v, "/g", Some(512), HostOs::Linux);
        assert!(plan.jvm_args.iter().any(|a| a.contains("-cp")));
    }
}

#[test]
fn windows_plan_uses_semicolon_between_entries() {
    let plan = prepare_run(&version(None, None), "/g", None, HostOs::Windows);
    // Only the unguarded library is selected on Windows.
    assert_eq!(plan.downloads.len(), 2);
    assert_eq!(plan.classpath, format!("{};{}", plan.downloads[0].path, plan.downloads[1].path));
}

#[test]
fn java_candidates_in_order() {
    let c = java_candidates(&Some(s("/opt/jdk")), &Some(s("/ignored")), HostOs::Linux);
    assert_eq!(c, vec![s("/opt/jdk"), s("/opt/jdk/bin/java")]);
    let h = java_candidates(&None, &Some(s("/usr/lib/jvm/17")), HostOs::Linux);
    assert_eq!(h, vec![s("/usr/lib/jvm/17/bin/java")]);
    assert!(java_candidates(&None, &None, HostOs::Linux).is_empty());
}

#[test]
fn java_selection() {
    let probes = vec![
        JavaProbe { path: s("/opt/jdk"), is_file: false },
        JavaProbe { path: s("/opt/jdk/bin/java"), is_file: true },
    ];
    assert_eq!(select_java(&Some(s("/opt/jdk")), &probes), Ok(s("/opt/jdk/bin/java")));
    let none_found = vec![
        JavaProbe { path: s("/opt/jdk"), is_file: false },
        JavaProbe { path: s("/opt/jdk/bin/java"), is_file: false },
    ];
    assert_eq!(select_java(&Some(s("/opt/jdk")), &none_found), Err(s("Java not found at /opt/jdk")));
    assert_eq!(select_java(&None, &vec![]), Ok(s("java")));
    assert_eq!(
        select_java(&None, &vec![JavaProbe { path: s("/h/bin/java"), is_file: false }]),
        Ok(s("java"))
    );
}

#[test]
fn download_status_decision() {
    assert_eq!(checked_download_status(true, "200 OK", "https://x/y.jar"), Ok(()));
    assert_eq!(
        checked_download_status(false, "404 Not Found", "https://x/y.jar"),
        Err(s("download failed 404 Not Found: https://x/y.jar"))
    );
}

#[test]
fn game_dir_ending_in_slash_adds_no_separator() {
    let plan = prepare_run(&version(None, None), "/games/mc/", None, HostOs::Linux);
    assert_eq!(plan.versions_dir, "/games/mc/versions/1.20.1");
    assert_eq!(plan.libraries_dir, "/games/mc/libraries");
    assert_eq!(plan.downloads[1].path, "/games/mc/libraries/org/a/a.jar");
    let c = java_candidates(&Some(s("/opt/jdk/")), &None, HostOs::Linux);
    assert_eq!(c, vec![s("/opt/jdk/"), s("/opt/jdk/bin/java")]);
}
