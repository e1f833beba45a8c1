use mineserv::plugins::{
    install_search_url, installed_plugin_info, plugin_infos_from_projects, plugin_jar_file_name,
    project_versions_url, search_facets, search_url, select_plugin_version, PluginFile,
    PluginProject, PluginVersion,
};

fn version(number: &str, game_versions: &[&str], loaders: &[&str]) -> PluginVersion {
    PluginVersion {
        version_number: number.to_string(),
        game_versions: game_versions.iter().map(|s| s.to_string()).collect(),
        loaders: loaders.iter().map(|s| s.to_string()).collect(),
        files: vec![PluginFile {
            url: format!("https://example.invalid/{}.jar", number),
            filename: format!("{}.jar", number),
        }],
    }
}

#[test]
fn selection_prefers_the_first_full_match() {
    let versions = vec![
        version("3.0", &["1.21.1"], &["velocity"]),
        version("2.0", &["1.21.1"], &["Paper"]),
        version("1.0", &["1.21.1"], &["paper"]),
    ];
    let mc = "1.21.1".to_string();
    let loader = "paper".to_string();
    // loaders compare case-insensitively, so index 1 wins
    assert_eq!(select_plugin_version(&versions, &mc, &loader), Some(1));
}

#[test]
fn selection_falls_back_to_the_loader_alone() {
    let versions = vec![
        version("3.0", &["1.20.4"], &["velocity"]),
        version("2.0", &["1.20.4"], &["paper"]),
        version("1.0", &["1.19.4"], &["paper"]),
    ];
    let mc = "1.21.1".to_string();
    let loader = "paper".to_string();
    assert_eq!(select_plugin_version(&versions, &mc, &loader), Some(1));
}

#[test]
fn selection_fails_when_no_version_supports_the_loader() {
    let versions = vec![
        version("3.0", &["1.21.1"], &["velocity"]),
        version("2.0", &["1.21.1"], &["fabric"]),
    ];
    let mc = "1.21.1".to_string();
    let loader = "paper".to_string();
    assert_eq!(select_plugin_version(&versions, &mc, &loader), None);
}

#[test]
fn search_urls_percent_encode_their_query() {
    // a wrapper that handed the text back unchanged would leave the space
    assert_eq!(
        search_url("world edit", "[[\"categories:paper\"]]"),
        "https://api.modrinth.com/v2/search?query=world%20edit&facets=%5B%5B%22categories%3Apaper%22%5D%5D&limit=20"
    );
    assert_eq!(
        install_search_url("essentials"),
        "https://api.modrinth.com/v2/search?query=essentials&limit=1"
    );
    assert_eq!(
        project_versions_url("AABBCCDD"),
        "https://api.modrinth.com/v2/project/AABBCCDD/version"
    );
}

#[test]
fn facets_follow_the_server_type() {
    assert_eq!(search_facets("paper"), "[[\"categories:paper\"]]");
    assert_eq!(search_facets("Paper"), "[[\"categories:paper\"]]");
    assert_eq!(search_facets("SPIGOT"), "[[\"categories:spigot\"]]");
    assert_eq!(search_facets("other"), "[[\"project_type:plugin\"]]");
}

#[test]
fn search_hits_become_uninstalled_plugin_infos() {
    let projects = vec![PluginProject {
        title: "WorldEdit".to_string(),
        description: "editing".to_string(),
        author: "someone".to_string(),
        project_id: "x".to_string(),
    }];
    let infos = plugin_infos_from_projects(projects);
    assert_eq!(infos.len(), 1);
    assert_eq!(infos[0].name, "WorldEdit");
    assert_eq!(infos[0].version, "");
    assert_eq!(infos[0].description.as_deref(), Some("editing"));
    assert_eq!(infos[0].author.as_deref(), Some("someone"));
    assert!(!infos[0].installed);
}

#[test]
fn installed_plugins_are_known_by_file_name() {
    let info = installed_plugin_info("WorldEdit");
    assert_eq!(info.name, "WorldEdit");
    assert_eq!(info.version, "unknown");
    assert!(info.installed);
    assert_eq!(plugin_jar_file_name("WorldEdit"), "WorldEdit.jar");
}
