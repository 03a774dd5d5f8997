use smart_transfer::host::commands::{compress_files, decompress_file, list_plugins};
use smart_transfer::host::logging::{
    cleanup_old_logs, enabled, format_log_entry, is_expired, level_name, log_file_name,
    FileLogger, LogFile, LogLevel,
};
use smart_transfer::host::plugin_manager::PluginManager;
use smart_transfer::plugin_api::base::{Plugin, PluginConfig, PluginError};
use smart_transfer::plugin_api::compression::CompressionPlugin;
use smart_transfer::plugin_api::files::{FileStore, Node};
use smart_transfer::plugin_api::types::{
    CompressionOptions, PlatformSupport, PluginMetadata, PluginType,
};
use smart_transfer::plugins::builtin::BuiltinPlugin;
use smart_transfer::plugins::registry::PluginRegistry;
use smart_transfer::plugins::sevenz_tool::{SevenZipTool, ToolOutput};
use smart_transfer::plugins::zip::ZipPlugin;

/// A plugin that moves files: it has no compression to offer.
struct Mover {
    config: PluginConfig,
}

fn mover() -> Mover {
    Mover {
        config: PluginConfig {
            name: "mover".to_string(),
            description: "moves files".to_string(),
            version: "0.1.0".to_string(),
            plugin_type: PluginType::Transfer,
        },
    }
}

impl Plugin for Mover {
    fn get_config(&self) -> &PluginConfig {
        &self.config
    }

    fn metadata(&self) -> PluginMetadata {
        PluginMetadata {
            name: "mover".to_string(),
            version: "0.1.0".to_string(),
            author: "tests".to_string(),
            description: "moves files".to_string(),
            plugin_type: PluginType::Transfer,
            platform_support: PlatformSupport { windows: false, linux: true, macos: false },
        }
    }

    fn initialize(&mut self) -> Result<(), PluginError> {
        Ok(())
    }

    fn cleanup(&mut self) -> Result<(), PluginError> {
        Err(PluginError::Other("still moving".to_string()))
    }
}

impl CompressionPlugin for Mover {
    fn compress(
        &self,
        store: &mut FileStore,
        _input_files: &Vec<String>,
        output_file: &String,
        _options: &CompressionOptions,
    ) -> Result<(), PluginError> {
        store.write(output_file.clone(), b"must not happen".to_vec());
        Ok(())
    }

    fn decompress(
        &self,
        _store: &mut FileStore,
        _archive_file: &String,
        _output_dir: &String,
        _overwrite: bool,
    ) -> Result<(), PluginError> {
        Ok(())
    }
}

fn s(text: &str) -> String {
    text.to_string()
}

#[test]
fn commands_report_an_unknown_plugin_by_name() {
    let manager = PluginManager::new();
    let mut store = FileStore::new();
    let options = CompressionOptions::default();
    assert_eq!(
        compress_files(manager.plugins(), &mut store, "nope", &vec![], &s("o.zip"), &options),
        Err(s("Plugin 'nope' not found"))
    );
    assert_eq!(
        decompress_file(manager.plugins(), &mut store, "nope", &s("o.zip"), &s("out")),
        Err(s("Plugin 'nope' not found"))
    );
    assert_eq!(store.len(), 0);
}

#[test]
fn commands_refuse_a_plugin_without_compression() {
    let mut registry = PluginRegistry::new();
    registry.register(s("mover"), mover()).unwrap();
    let mut store = FileStore::new();
    let options = CompressionOptions::default();
    assert_eq!(
        compress_files(&registry, &mut store, "mover", &vec![], &s("o.zip"), &options),
        Err(s("Plugin 'mover' is not a compression plugin"))
    );
    assert_eq!(
        decompress_file(&registry, &mut store, "mover", &s("o.zip"), &s("out")),
        Err(s("Plugin 'mover' is not a compression plugin"))
    );
    assert_eq!(store.len(), 0);
    let instance = registry.get("mover").unwrap();
    assert!(instance.as_compression_plugin().is_none());
    match instance.compress(&mut store, &vec![], &s("o.zip"), &options) {
        Err(PluginError::Other(detail)) => assert_eq!(detail, "Plugin does not support compression"),
        _ => panic!("expected Other"),
    }
    match instance.decompress(&mut store, &s("o.zip"), &s("out"), true) {
        Err(PluginError::Other(detail)) => {
            assert_eq!(detail, "Plugin does not support decompression")
        }
        _ => panic!("expected Other"),
    }
    assert_eq!(store.len(), 0);
}

#[test]
fn commands_run_the_plugin_and_give_its_error_as_text() {
    let mut manager = PluginManager::new();
    manager.register_default_plugins().unwrap();
    let mut store = FileStore::new();
    store.write(s("in/a.txt"), b"hello".to_vec());
    let options = CompressionOptions::default();
    assert_eq!(
        compress_files(
            manager.plugins(),
            &mut store,
            "ZIP Plugin",
            &vec![s("in/missing.txt")],
            &s("o.zip"),
            &options
        ),
        Err(s("Not found: in/missing.txt"))
    );
    assert_eq!(
        compress_files(
            manager.plugins(),
            &mut store,
            "ZIP Plugin",
            &vec![s("in/a.txt")],
            &s("o.zip"),
            &options
        ),
        Ok(())
    );
    assert_eq!(
        decompress_file(manager.plugins(), &mut store, "7-Zip Plugin", &s("gone.7z"), &s("out")),
        Err(s("Not found: gone.7z"))
    );
    assert_eq!(
        decompress_file(manager.plugins(), &mut store, "ZIP Plugin", &s("o.zip"), &s("out")),
        Ok(())
    );
    match store.get("out/a.txt") {
        Some(Node::File(data)) => assert_eq!(data, &b"hello".to_vec()),
        _ => panic!("the file did not come back"),
    }
    assert_eq!(
        decompress_file(manager.plugins(), &mut store, "ZIP Plugin", &s("o.zip"), &s("out")),
        Ok(())
    );
    let listed = list_plugins(manager.plugins());
    assert_eq!(listed.len(), 2);
    assert_eq!(listed[0].name, "ZIP Plugin");
}

#[test]
fn manager_gives_exclusive_access_to_a_plugin() {
    let mut manager = PluginManager::new();
    manager.register_default_plugins().unwrap();
    match manager.get_plugin_mut("ZIP Plugin") {
        Some(plugin) => {
            assert!(plugin.initialize().is_ok());
            *plugin = BuiltinPlugin::Zip(ZipPlugin::new());
        }
        None => panic!("the plugin is registered"),
    }
    assert!(manager.get_plugin_mut("absent").is_none());
    assert!(manager.get_instance("ZIP Plugin").unwrap().is_initialized());
}

#[test]
fn registry_cleanup_reports_the_first_failure_after_cleaning_all() {
    let mut registry = PluginRegistry::new();
    registry.register(s("mover"), mover()).unwrap();
    registry.register(s("second"), mover()).unwrap();
    match registry.cleanup() {
        Err(PluginError::Other(detail)) => assert_eq!(detail, "still moving"),
        _ => panic!("expected the first failure"),
    }
    let mut empty: PluginRegistry<Mover> = PluginRegistry::new();
    assert!(empty.cleanup().is_ok());
}

#[test]
fn log_records_and_file_names() {
    assert_eq!(log_file_name("2024-03-09"), "smart_transfer_2024-03-09.log");
    assert_eq!(
        format_log_entry("2024-03-09 10:11:12.123", "INFO", "loader", "found 2 plugins"),
        "[2024-03-09 10:11:12.123 INFO loader] found 2 plugins\n"
    );
    assert_eq!(level_name(LogLevel::Warn), "WARN");
    assert!(enabled(LogLevel::Error, LogLevel::Debug));
    assert!(enabled(LogLevel::Debug, LogLevel::Debug));
    assert!(!enabled(LogLevel::Trace, LogLevel::Debug));
    let logger = FileLogger::new(s("logs"));
    assert_eq!(logger.log_dir(), "logs");
    assert_eq!(logger.get_log_file_path("2024-03-09"), "logs/smart_transfer_2024-03-09.log");
    assert_eq!(
        logger.write_log(LogLevel::Debug, "t", LogLevel::Error, "core", "bad"),
        Some(s("[t ERROR core] bad\n"))
    );
    assert_eq!(logger.write_log(LogLevel::Info, "t", LogLevel::Debug, "core", "detail"), None);
}

#[test]
fn old_logs_are_those_modified_before_the_days_kept() {
    let day: i64 = 86400;
    let now: i64 = 100 * day;
    assert!(is_expired(now - 7 * day - 1, now, 7));
    assert!(!is_expired(now - 7 * day, now, 7));
    assert!(!is_expired(now, now, 0));
    assert!(is_expired(now - 1, now, 0));
    assert!(!is_expired(i64::MIN, now, u64::MAX));
    let files = vec![
        LogFile { path: s("logs/old.log"), modified: now - 31 * day },
        LogFile { path: s("logs/new.log"), modified: now - day },
        LogFile { path: s("logs/older.log"), modified: 0 },
    ];
    assert_eq!(cleanup_old_logs(&files, now, 30), vec![s("logs/old.log"), s("logs/older.log")]);
    assert!(cleanup_old_logs(&files, now, 200).is_empty());
}

#[test]
fn external_tool_arguments_and_answers() {
    assert_eq!(SevenZipTool::program(), "7z");
    assert_eq!(SevenZipTool::probe_arguments(), vec![s("--help")]);
    assert_eq!(
        SevenZipTool::compress(&vec![s("a.txt"), s("dir")], &s("out.7z")),
        vec![s("a"), s("-t7z"), s("-mx=5"), s("out.7z"), s("a.txt"), s("dir")]
    );
    assert_eq!(
        SevenZipTool::decompress(true, &s("in.7z"), &s("target")).unwrap(),
        vec![s("x"), s("in.7z"), s("-otarget"), s("-y")]
    );
    match SevenZipTool::decompress(false, &s("in.7z"), &s("target")) {
        Err(PluginError::NotFound(path)) => assert_eq!(path, "in.7z"),
        _ => panic!("expected NotFound"),
    }
    assert!(SevenZipTool::initialize(Ok(ToolOutput { success: true, stderr: s("") })).is_ok());
    match SevenZipTool::initialize(Ok(ToolOutput { success: false, stderr: s("x") })) {
        Err(PluginError::ExecutionError(detail)) => assert_eq!(detail, "7-Zip is not installed"),
        _ => panic!("expected ExecutionError"),
    }
    match SevenZipTool::initialize(Err(s("No such file or directory"))) {
        Err(PluginError::ExecutionError(detail)) => {
            assert_eq!(detail, "7-Zip is not installed: No such file or directory")
        }
        _ => panic!("expected ExecutionError"),
    }
    assert!(SevenZipTool::finish(Ok(ToolOutput { success: true, stderr: s("warn") })).is_ok());
    match SevenZipTool::finish(Ok(ToolOutput { success: false, stderr: s("broken archive") })) {
        Err(PluginError::ExecutionError(detail)) => assert_eq!(detail, "broken archive"),
        _ => panic!("expected ExecutionError"),
    }
    match SevenZipTool::finish(Err(s("denied"))) {
        Err(PluginError::ExecutionError(detail)) => assert_eq!(detail, "Failed to execute 7z: denied"),
        _ => panic!("expected ExecutionError"),
    }
}
