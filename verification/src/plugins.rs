//! The decision logic of plugin search and installation.
//!
//! The HTTP traffic against the package registry is the shell's job; this
//! module builds the request URLs, and — the heart of installation — picks
//! which published version to install: the first one supporting both the
//! instance's game version and its loader, falling back to the first one
//! supporting the loader alone.

use vstd::prelude::*;
use vstd::string::*;

use crate::files::lower_of;
use crate::files::lowercase;
use crate::types::PluginInfo;

verus! {

/// One downloadable artifact of a published plugin version.
#[derive(Debug)]
pub struct PluginFile {
    pub url: String,
    pub filename: String,
}

/// One published version of a plugin, as the package registry lists it.
#[derive(Debug)]
pub struct PluginVersion {
    pub version_number: String,
    pub game_versions: Vec<String>,
    pub loaders: Vec<String>,
    pub files: Vec<PluginFile>,
}

/// One project found by a plugin search.
#[derive(Debug)]
pub struct PluginProject {
    pub title: String,
    pub description: String,
    pub author: String,
    pub project_id: String,
}

/// Whether a published version supports the given game version.
pub open spec fn spec_game_match(v: &PluginVersion, mc: Seq<char>) -> bool {
    exists|i: int| 0 <= i < v.game_versions@.len() && #[trigger] v.game_versions@[i]@ == mc
}

/// Whether a published version supports the given loader, compared
/// case-insensitively as the registry capitalises loaders freely.
pub open spec fn spec_loader_match(v: &PluginVersion, loader: Seq<char>) -> bool {
    exists|i: int| 0 <= i < v.loaders@.len() && #[trigger] lower_of(v.loaders@[i]@) == loader
}

/// Whether a published version supports game version and loader both.
pub open spec fn spec_full_match(v: &PluginVersion, mc: Seq<char>, loader: Seq<char>) -> bool {
    spec_game_match(v, mc) && spec_loader_match(v, loader)
}

fn game_matches(v: &PluginVersion, mc: &String) -> (r: bool)
    ensures
        r == spec_game_match(v, mc@),
{
    let n = v.game_versions.len();
    let mut k: usize = 0;
    while k < n
        invariant
            0 <= k <= n,
            n == v.game_versions@.len(),
            forall|i: int| 0 <= i < k ==> #[trigger] v.game_versions@[i]@ != mc@,
        decreases n - k,
    {
        if v.game_versions[k] == *mc {
            return true;
        }
        k = k + 1;
    }
    false
}

fn loader_matches(v: &PluginVersion, loader: &String) -> (r: bool)
    ensures
        r == spec_loader_match(v, loader@),
{
    let n = v.loaders.len();
    let mut k: usize = 0;
    while k < n
        invariant
            0 <= k <= n,
            n == v.loaders@.len(),
            forall|i: int| 0 <= i < k ==> #[trigger] lower_of(v.loaders@[i]@) != loader@,
        decreases n - k,
    {
        let lowered = lowercase(v.loaders[k].as_str());
        if lowered == *loader {
            return true;
        }
        k = k + 1;
    }
    false
}

/// Picks the version to install, exactly as installation proceeds: the
/// first version supporting both the wanted game version and the loader;
/// failing that, the first version supporting the loader at all; and
/// `None` — no compatible version — only when no version supports the
/// loader.
pub fn select_plugin_version(
    versions: &Vec<PluginVersion>,
    minecraft_version: &String,
    loader: &String,
) -> (r: Option<usize>)
    ensures
        r is None <==> (forall|j: int|
            0 <= j < versions@.len() ==> !spec_loader_match(&versions@[j], loader@)),
        r is Some ==> 0 <= r->0 < versions@.len() && spec_loader_match(
            &versions@[r->0 as int],
            loader@,
        ),
        r is Some && (exists|j: int|
            0 <= j < versions@.len() && #[trigger] spec_full_match(
                &versions@[j],
                minecraft_version@,
                loader@,
            )) ==> spec_full_match(&versions@[r->0 as int], minecraft_version@, loader@) && (
        forall|j: int|
            0 <= j < r->0 ==> !spec_full_match(&versions@[j], minecraft_version@, loader@)),
        r is Some && !(exists|j: int|
            0 <= j < versions@.len() && #[trigger] spec_full_match(
                &versions@[j],
                minecraft_version@,
                loader@,
            )) ==> (forall|j: int| 0 <= j < r->0 ==> !spec_loader_match(&versions@[j], loader@)),
{
    let n = versions.len();
    let mut k: usize = 0;
    while k < n
        invariant
            0 <= k <= n,
            n == versions@.len(),
            forall|j: int|
                0 <= j < k ==> !spec_full_match(&versions@[j], minecraft_version@, loader@),
        decreases n - k,
    {
        if game_matches(&versions[k], minecraft_version) && loader_matches(&versions[k], loader) {
            proof {
                assert(spec_full_match(&versions@[k as int], minecraft_version@, loader@));
            }
            return Some(k);
        }
        k = k + 1;
    }
    let mut k: usize = 0;
    while k < n
        invariant
            0 <= k <= n,
            n == versions@.len(),
            forall|j: int|
                0 <= j < n ==> !spec_full_match(&versions@[j], minecraft_version@, loader@),
            forall|j: int| 0 <= j < k ==> !spec_loader_match(&versions@[j], loader@),
        decreases n - k,
    {
        if loader_matches(&versions[k], loader) {
            return Some(k);
        }
        k = k + 1;
    }
    None
}

/// What `urlencoding::encode` returns: every byte percent-encoded except
/// alphanumerics and `-`, `_`, `.`, `~` — a function of the text alone.
pub uninterp spec fn url_enc(s: Seq<char>) -> Seq<char>;

/// Relies on `urlencoding::encode`: percent-encoding, deterministic in the
/// input text; empty input stays empty.
#[verifier::external_body]
fn url_encode(s: &str) -> (r: String)
    ensures
        r@ == url_enc(s@),
        s@.len() == 0 ==> r@.len() == 0,
{
    urlencoding::encode(s).into_owned()
}

/// The search request the plugin-search endpoint sends.
pub open spec fn spec_search_url(query: Seq<char>, facets: Seq<char>) -> Seq<char> {
    "https://api.modrinth.com/v2/search?query="@ + url_enc(query) + "&facets="@ + url_enc(facets)
        + "&limit=20"@
}

/// Builds the plugin-search URL for a query under the given facets.
pub fn search_url(query: &str, facets: &str) -> (u: String)
    ensures
        u@ == spec_search_url(query@, facets@),
{
    let mut u = "https://api.modrinth.com/v2/search?query=".to_owned();
    u.append(url_encode(query).as_str());
    u.append("&facets=");
    u.append(url_encode(facets).as_str());
    u.append("&limit=20");
    proof {
        assert(u@ =~= spec_search_url(query@, facets@));
    }
    u
}

/// The single-hit search installation starts with.
pub open spec fn spec_install_search_url(name: Seq<char>) -> Seq<char> {
    "https://api.modrinth.com/v2/search?query="@ + url_enc(name) + "&limit=1"@
}

/// Builds the URL that looks a plugin up by name for installation.
pub fn install_search_url(name: &str) -> (u: String)
    ensures
        u@ == spec_install_search_url(name@),
{
    let mut u = "https://api.modrinth.com/v2/search?query=".to_owned();
    u.append(url_encode(name).as_str());
    u.append("&limit=1");
    proof {
        assert(u@ =~= spec_install_search_url(name@));
    }
    u
}

/// The listing of a project's published versions.
pub open spec fn spec_project_versions_url(project_id: Seq<char>) -> Seq<char> {
    "https://api.modrinth.com/v2/project/"@ + project_id + "/version"@
}

/// Builds the URL listing a project's published versions.
pub fn project_versions_url(project_id: &str) -> (u: String)
    ensures
        u@ == spec_project_versions_url(project_id@),
{
    let mut u = "https://api.modrinth.com/v2/project/".to_owned();
    u.append(project_id);
    u.append("/version");
    proof {
        assert(u@ =~= spec_project_versions_url(project_id@));
    }
    u
}

/// The facet filter a search uses for each server type; anything but the
/// two known types searches all plugins.
pub open spec fn spec_search_facets(server_type: Seq<char>) -> Seq<char> {
    if lower_of(server_type) == "paper"@ {
        "[[\"categories:paper\"]]"@
    } else if lower_of(server_type) == "spigot"@ {
        "[[\"categories:spigot\"]]"@
    } else {
        "[[\"project_type:plugin\"]]"@
    }
}

/// Chooses the search facets for a server type, case-insensitively.
pub fn search_facets(server_type: &str) -> (f: String)
    ensures
        f@ == spec_search_facets(server_type@),
{
    let lowered = lowercase(server_type);
    if lowered == "paper".to_owned() {
        "[[\"categories:paper\"]]".to_owned()
    } else if lowered == "spigot".to_owned() {
        "[[\"categories:spigot\"]]".to_owned()
    } else {
        "[[\"project_type:plugin\"]]".to_owned()
    }
}

/// Search hits as the API reports them: name and description carried over,
/// version unknown until installation, not yet installed.
pub fn plugin_infos_from_projects(projects: Vec<PluginProject>) -> (r: Vec<PluginInfo>)
    ensures
        r@.len() == projects@.len(),
        forall|i: int|
            0 <= i < r@.len() ==> {
                let p = #[trigger] r@[i];
                &&& p.name == projects@[i].title
                &&& p.version@ == Seq::<char>::empty()
                &&& p.description matches Some(d) && d == projects@[i].description
                &&& p.author matches Some(a) && a == projects@[i].author
                &&& p.installed == false
            },
{
    let mut r: Vec<PluginInfo> = Vec::new();
    let n = projects.len();
    let mut k: usize = 0;
    while k < n
        invariant
            0 <= k <= n,
            n == projects@.len(),
            r@.len() == k,
            forall|i: int|
                0 <= i < k ==> {
                    let p = #[trigger] r@[i];
                    &&& p.name == projects@[i].title
                    &&& p.version@ == Seq::<char>::empty()
                    &&& p.description matches Some(d) && d == projects@[i].description
                    &&& p.author matches Some(a) && a == projects@[i].author
                    &&& p.installed == false
                },
        decreases n - k,
    {
        let p = &projects[k];
        r.push(
            PluginInfo {
                name: p.title.clone(),
                version: String::new(),
                description: Some(p.description.clone()),
                author: Some(p.author.clone()),
                installed: false,
            },
        );
        k = k + 1;
    }
    r
}

/// The file name a plugin is stored under in the plugins directory.
pub fn plugin_jar_file_name(name: &str) -> (f: String)
    ensures
        f@ == name@ + ".jar"@,
{
    let mut f = name.to_owned();
    f.append(".jar");
    f
}

/// An installed plugin as the listing reports it: known by file name only.
pub fn installed_plugin_info(stem: &str) -> (p: PluginInfo)
    ensures
        p.name@ == stem@,
        p.version@ == "unknown"@,
        p.description is None,
        p.author is None,
        p.installed,
{
    PluginInfo {
        name: stem.to_owned(),
        version: "unknown".to_owned(),
        description: None,
        author: None,
        installed: true,
    }
}

} // verus!
