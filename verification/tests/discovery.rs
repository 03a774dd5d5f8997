use smart_transfer::host::plugin_manager::PluginManager;
use smart_transfer::plugin_api::base::{Plugin, PluginError};
use smart_transfer::plugin_api::paths::{extension, file_name, file_stem, join, relative_to, scan_back};
use smart_transfer::plugin_api::platform::{
    get_config_dir, get_log_dir, get_plugin_dir, BaseDirectories, BuildMode, LinuxPaths,
    PlatformPaths,
};
use smart_transfer::plugins::loader::{DirEntry, Platform, PluginLoader};
use smart_transfer::plugins::template::TemplatePlugin;

fn entry(path: &str, is_file: bool) -> DirEntry {
    DirEntry { path: path.to_string(), is_file }
}

fn load(path: String) -> Result<TemplatePlugin, PluginError> {
    if path.contains("corrupt") {
        Err(PluginError::ExecutionError(format!("cannot open {}", path)))
    } else {
        Ok(TemplatePlugin::new())
    }
}

#[test]
fn discover_in_a_missing_directory_finds_nothing() {
    let found = PluginLoader::discover_plugins(None, Platform::Linux, load);
    assert!(found.plugins.is_empty());
    assert!(found.skipped.is_empty());
}

#[test]
fn discover_skips_a_corrupt_library_and_loads_its_sibling() {
    let listing = vec![entry("plugins/corrupt.so", true), entry("plugins/valid.so", true)];
    let found = PluginLoader::discover_plugins(Some(&listing), Platform::Linux, load);
    assert_eq!(found.plugins.len(), 1);
    assert!(!found.plugins[0].is_initialized());
    assert_eq!(found.plugins[0].plugin().get_config().name, "template");
    assert_eq!(found.skipped.len(), 1);
    assert_eq!(found.skipped[0].path, "plugins/corrupt.so");
    match &found.skipped[0].error {
        PluginError::ExecutionError(detail) => assert_eq!(detail, "cannot open plugins/corrupt.so"),
        _ => panic!("expected the loader's error"),
    }
}

#[test]
fn discover_ignores_directories_and_other_extensions() {
    let listing = vec![
        entry("plugins/readme.txt", true),
        entry("plugins/dir.so", false),
        entry("plugins/a.so", true),
        entry("plugins/b.dll", true),
        entry("plugins/noext", true),
        entry("plugins/.so", true),
    ];
    assert_eq!(PluginLoader::candidates(&listing, Platform::Linux), vec!["plugins/a.so".to_string()]);
    assert_eq!(
        PluginLoader::candidates(&listing, Platform::Windows),
        vec!["plugins/b.dll".to_string()]
    );
    assert!(PluginLoader::candidates(&listing, Platform::MacOs).is_empty());
    let found = PluginLoader::discover_plugins(Some(&listing), Platform::Linux, load);
    assert_eq!(found.plugins.len(), 1);
    assert!(found.skipped.is_empty());
}

#[test]
fn plugin_library_goes_by_the_platform_extension() {
    assert!(PluginLoader::is_plugin_library("plugins/libzip.so", Platform::Linux));
    assert!(!PluginLoader::is_plugin_library("plugins/libzip.so", Platform::Windows));
    assert!(PluginLoader::is_plugin_library("zip.dll", Platform::Windows));
    assert!(PluginLoader::is_plugin_library("a/b/libzip.1.dylib", Platform::MacOs));
    assert!(!PluginLoader::is_plugin_library("plugins.so/readme", Platform::Linux));
    assert!(!PluginLoader::is_plugin_library("so", Platform::Linux));
    assert!(!PluginLoader::is_plugin_library("", Platform::Linux));
}

#[test]
fn path_functions() {
    assert_eq!(scan_back("a/b/c", '/'), 4);
    assert_eq!(scan_back("abc", '/'), 0);
    assert_eq!(file_name("a/b/c.txt"), Some("c.txt".to_string()));
    assert_eq!(file_name("c.txt"), Some("c.txt".to_string()));
    assert_eq!(file_name("a/"), None);
    assert_eq!(extension("a/b.tar.gz"), Some("gz".to_string()));
    assert_eq!(extension("a/.hidden"), None);
    assert_eq!(extension("a.d/b"), None);
    assert_eq!(file_stem("a/b.tar.gz"), Some("b.tar".to_string()));
    assert_eq!(file_stem("a/.hidden"), Some(".hidden".to_string()));
    assert_eq!(file_stem("plain"), Some("plain".to_string()));
    assert_eq!(join("a", "b/c"), "a/b/c");
    assert_eq!(join("", "b"), "b");
    assert_eq!(relative_to("a/b/c", "a"), Some("b/c".to_string()));
    assert_eq!(relative_to("a/b", "a/b"), None);
    assert_eq!(relative_to("ab/c", "a"), None);
    assert_eq!(relative_to("a/", "a"), None);
}

#[test]
fn directories_follow_build_mode_and_base_directories() {
    let base = Some(BaseDirectories {
        data_dir: "/home/alice/.local/share".to_string(),
        config_dir: "/home/alice/.config".to_string(),
    });
    assert_eq!(get_plugin_dir(BuildMode::Development, &base), "plugins");
    assert_eq!(get_log_dir(BuildMode::Development, &base), "logs");
    assert_eq!(get_config_dir(BuildMode::Development, &base), "config");
    assert_eq!(
        get_plugin_dir(BuildMode::Installed, &base),
        "/home/alice/.local/share/smart_transfer/plugins"
    );
    assert_eq!(
        get_log_dir(BuildMode::Installed, &base),
        "/home/alice/.local/share/smart_transfer/logs"
    );
    assert_eq!(get_config_dir(BuildMode::Installed, &base), "/home/alice/.config/smart_transfer");
    assert_eq!(get_plugin_dir(BuildMode::Installed, &None), "plugins");
    assert_eq!(get_log_dir(BuildMode::Installed, &None), "logs");
    assert_eq!(get_config_dir(BuildMode::Installed, &None), "config");
    assert_eq!(LinuxPaths::get_plugin_dir(BuildMode::Development), "plugins");
    assert!(LinuxPaths::get_config_dir(BuildMode::Installed).ends_with("config")
        || LinuxPaths::get_config_dir(BuildMode::Installed).ends_with("smart_transfer"));
}

#[test]
fn manager_registers_the_default_plugins_once() {
    let mut manager = PluginManager::new();
    manager.register_default_plugins().unwrap();
    assert!(manager.get_plugin("ZIP Plugin").is_some());
    assert!(manager.get_plugin("7-Zip Plugin").is_some());
    assert!(manager.get_plugin("zstd").is_none());
    assert!(manager.get_instance("ZIP Plugin").unwrap().is_initialized());
    let listed = manager.list_plugins();
    assert_eq!(listed.len(), 2);
    assert_eq!(listed[0].name, "ZIP Plugin");
    assert_eq!(listed[1].name, "7-Zip Plugin");
    match manager.register_default_plugins() {
        Err(PluginError::AlreadyExists(name)) => assert_eq!(name, "ZIP Plugin"),
        _ => panic!("expected AlreadyExists"),
    }
    assert_eq!(manager.list_plugins().len(), 2);
    assert!(manager.cleanup().is_ok());
    assert!(!manager.get_instance("ZIP Plugin").unwrap().is_initialized());
    assert!(!manager.get_instance("7-Zip Plugin").unwrap().is_initialized());
}
