//! Game version metadata: the version manifest, the per-version description,
//! and the lookup of a version's description URL.

use vstd::prelude::*;

verus! {

/// The list of game versions published in the version manifest.
#[derive(Debug, Clone, PartialEq, Eq)]
pub struct VersionManifestV2 {
    pub versions: Vec<VersionRef>,
}

/// One entry of the manifest: a version id and the URL of its description.
#[derive(Debug, Clone, PartialEq, Eq)]
pub struct VersionRef {
    pub id: String,
    pub url: String,
}

/// The description of one game version.
#[derive(Debug, Clone, PartialEq, Eq)]
pub struct VersionJson {
    pub id: String,
    pub main_class: String,
    pub arguments: Option<Arguments>,
    pub minecraft_arguments_legacy: Option<String>,
    pub libraries: Vec<Library>,
    pub downloads: Downloads,
}

/// The JVM and game argument lists of a version description.
#[derive(Debug, Clone, PartialEq, Eq)]
pub struct Arguments {
    pub jvm: Option<Vec<ArgumentEntry>>,
    pub game: Option<Vec<ArgumentEntry>>,
}

/// One argument entry: a plain string, or values guarded by rules.
#[derive(Debug, Clone, PartialEq, Eq)]
pub enum ArgumentEntry {
    String(String),
    Object { value: Vec<String>, rules: Option<Vec<Rule>> },
}

/// A rule that allows or disallows something, optionally only on one OS.
#[derive(Debug, Clone, PartialEq, Eq)]
pub struct Rule {
    pub action: Option<String>,
    pub os: Option<OsRule>,
}

/// The operating-system condition of a rule.
#[derive(Debug, Clone, PartialEq, Eq)]
pub struct OsRule {
    pub name: Option<String>,
    pub arch: Option<String>,
}

/// The downloads of a version description.
#[derive(Debug, Clone, PartialEq, Eq)]
pub struct Downloads {
    pub client: ClientDownload,
}

/// The client jar of a version.
#[derive(Debug, Clone, PartialEq, Eq)]
pub struct ClientDownload {
    pub url: String,
    pub sha1: String,
    pub size: u64,
}

/// A library of a version. `has_natives` records whether the description
/// declares native classifiers for it.
#[derive(Debug, Clone, PartialEq, Eq)]
pub struct Library {
    pub name: String,
    pub downloads: Option<LibraryDownloads>,
    pub rules: Option<Vec<Rule>>,
    pub has_natives: bool,
}

/// The downloads of a library.
#[derive(Debug, Clone, PartialEq, Eq)]
pub struct LibraryDownloads {
    pub artifact: Option<Artifact>,
}

/// A downloadable library jar and where it goes under the libraries directory.
#[derive(Debug, Clone, PartialEq, Eq)]
pub struct Artifact {
    pub path: String,
    pub url: String,
    pub sha1: String,
    pub size: u64,
}

/// `i` is the first position of `versions` whose id is `id`.
pub open spec fn is_first_with_id(versions: Seq<VersionRef>, id: Seq<char>, i: int) -> bool {
    &&& 0 <= i < versions.len()
    &&& versions[i].id@ == id
    &&& forall|j: int| 0 <= j < i ==> versions[j].id@ != id
}

/// Whether some entry of `versions` has the id `id`.
pub open spec fn has_version(versions: Seq<VersionRef>, id: Seq<char>) -> bool {
    exists|i: int| 0 <= i < versions.len() && #[trigger] versions[i].id@ == id
}

/// Finds the URL of the version `version_id`: that of the first manifest entry
/// with this id, or `None` when no entry has it.
pub fn find_version_url(manifest: &VersionManifestV2, version_id: &str) -> (r: Option<String>)
    ensures
        r is None <==> !has_version(manifest.versions@, version_id@),
        r matches Some(url) ==> (exists|i: int|
            is_first_with_id(manifest.versions@, version_id@, i) && url@
                == manifest.versions@[i].url@),
{
    let target = version_id.to_owned();
    let n = manifest.versions.len();
    let mut i: usize = 0;
    while i < n
        invariant
            i <= n,
            n == manifest.versions@.len(),
            target@ == version_id@,
            forall|j: int| 0 <= j < i ==> manifest.versions@[j].id@ != version_id@,
        decreases n - i,
    {
        let v = &manifest.versions[i];
        if v.id == target {
            assert(is_first_with_id(manifest.versions@, version_id@, i as int));
            return Some(v.url.clone());
        }
        i = i + 1;
    }
    None
}

/// A JSON value in the `value` position of an argument entry, as far as the
/// description's reader distinguishes it.
#[derive(Debug)]
pub enum JsonArgValue {
    Str(String),
    Array(Vec<JsonArgValue>),
    Other,
}

/// Whether every element of `items` is a JSON string.
pub open spec fn all_strings(items: Seq<JsonArgValue>) -> bool {
    forall|i: int| 0 <= i < items.len() ==> items[i] is Str
}

/// The strings of `items`, which are all JSON strings.
pub open spec fn string_views(items: Seq<JsonArgValue>) -> Seq<Seq<char>> {
    items.map_values(|v: JsonArgValue| v->Str_0@)
}

/// Reads the `value` of an argument entry: a string gives a one-element list,
/// an array of strings gives its strings in order; anything else is refused
/// with the reader's message.
pub fn deserialize_value_vec(v: &JsonArgValue) -> (r: Result<Vec<String>, String>)
    ensures
        match v {
            JsonArgValue::Str(s) => r matches Ok(out) && out@.map_values(|x: String| x@) == seq![
                s@,
            ],
            JsonArgValue::Array(items) => if all_strings(items@) {
                r matches Ok(out) && out@.map_values(|x: String| x@) == string_views(items@)
            } else {
                r matches Err(m) && m@ == "expected string in argument value array"@
            },
            JsonArgValue::Other => r matches Err(m) && m@
                == "argument value must be string or array of strings"@,
        },
{
    match v {
        JsonArgValue::Str(s) => {
            let mut out: Vec<String> = Vec::new();
            out.push(s.clone());
            assert(out@.map_values(|x: String| x@) =~= seq![s@]);
            Ok(out)
        },
        JsonArgValue::Array(items) => {
            let mut out: Vec<String> = Vec::new();
            let n = items.len();
            let mut i: usize = 0;
            while i < n
                invariant
                    i <= n,
                    n == items@.len(),
                    v is Array && v->Array_0@ == items@,
                    all_strings(items@.take(i as int)),
                    out@.map_values(|x: String| x@) == string_views(items@.take(i as int)),
                decreases n - i,
            {
                match &items[i] {
                    JsonArgValue::Str(s) => {
                        let ghost before = out@;
                        out.push(s.clone());
                        assert(items@.take(i + 1) =~= items@.take(i as int).push(items@[i as int]));
                        assert(out@.map_values(|x: String| x@) =~= before.map_values(
                            |x: String| x@,
                        ).push(s@));
                        assert(string_views(items@.take(i + 1)) =~= string_views(
                            items@.take(i as int),
                        ).push(s@));
                    },
                    _ => {
                        assert(!(items@[i as int] is Str));
                        assert(!all_strings(items@));
                        return Err("expected string in argument value array".to_owned());
                    },
                }
                i = i + 1;
            }
            assert(items@.take(n as int) =~= items@);
            Ok(out)
        },
        JsonArgValue::Other => Err("argument value must be string or array of strings".to_owned()),
    }
}

/// Decides what a fetch of `what` gives: the body when the status was a
/// success, else the message `"<what> request failed <status>: <body>"`.
pub fn checked_response_body(what: &str, success: bool, status: &str, body: String) -> (r: Result<
    String,
    String,
>)
    ensures
        success ==> r == Ok::<String, String>(body),
        !success ==> (r matches Err(m) && m@ == what@ + " request failed "@ + status@ + ": "@
            + body@),
{
    if !success {
        let mut m = what.to_owned();
        m.append(" request failed ");
        m.append(status);
        m.append(": ");
        m.append(body.as_str());
        return Err(m);
    }
    Ok(body)
}

} // verus!
