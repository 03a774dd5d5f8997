use smart_transfer::plugin_api::base::{Plugin, PluginConfig, PluginError};
use smart_transfer::plugin_api::types::{PlatformSupport, PluginMetadata, PluginType};
use smart_transfer::plugins::registry::PluginRegistry;
use smart_transfer::plugins::zip::ZipPlugin;
use smart_transfer::plugins::PluginInstance;

/// A plugin that counts how often its lifecycle methods run and fails on demand.
struct Probe {
    config: PluginConfig,
    initialized: usize,
    cleaned: usize,
    fail_initialize: bool,
    fail_cleanup: bool,
}

fn probe(name: &str, kind: PluginType) -> Probe {
    Probe {
        config: PluginConfig {
            name: name.to_string(),
            description: "probe".to_string(),
            version: "0.0.1".to_string(),
            plugin_type: kind,
        },
        initialized: 0,
        cleaned: 0,
        fail_initialize: false,
        fail_cleanup: false,
    }
}

impl Plugin for Probe {
    fn get_config(&self) -> &PluginConfig {
        &self.config
    }

    fn metadata(&self) -> PluginMetadata {
        PluginMetadata {
            name: self.config.name.clone(),
            version: self.config.version.clone(),
            author: "tests".to_string(),
            description: self.config.description.clone(),
            plugin_type: self.config.plugin_type.clone(),
            platform_support: PlatformSupport { windows: true, linux: true, macos: false },
        }
    }

    fn initialize(&mut self) -> Result<(), PluginError> {
        self.initialized += 1;
        if self.fail_initialize {
            Err(PluginError::ExecutionError("tool missing".to_string()))
        } else {
            Ok(())
        }
    }

    fn cleanup(&mut self) -> Result<(), PluginError> {
        self.cleaned += 1;
        if self.fail_cleanup {
            Err(PluginError::Other("busy".to_string()))
        } else {
            Ok(())
        }
    }
}

#[test]
fn test_plugin_registry() {
    let mut registry = PluginRegistry::new();
    let plugin = ZipPlugin::new();
    registry.register("ZIP Plugin".to_string(), plugin).unwrap();
    assert!(registry.get_plugin("ZIP Plugin").is_some());
}

#[test]
fn new_instance_is_not_initialized() {
    let instance = PluginInstance::new(probe("a", PluginType::Compression));
    assert!(!instance.is_initialized());
    assert_eq!(instance.plugin().initialized, 0);
}

#[test]
fn initialize_twice_runs_the_plugin_once() {
    let mut instance = PluginInstance::new(probe("a", PluginType::Compression));
    assert!(instance.initialize().is_ok());
    assert!(instance.is_initialized());
    assert!(instance.initialize().is_ok());
    assert!(instance.is_initialized());
    assert_eq!(instance.plugin().initialized, 1);
}

#[test]
fn failed_initialize_keeps_the_flag_clear_and_hands_the_error_on() {
    let mut p = probe("a", PluginType::Compression);
    p.fail_initialize = true;
    let mut instance = PluginInstance::new(p);
    match instance.initialize() {
        Err(PluginError::ExecutionError(detail)) => assert_eq!(detail, "tool missing"),
        _ => panic!("expected the plugin's own error"),
    }
    assert!(!instance.is_initialized());
    assert_eq!(instance.plugin().initialized, 1);
}

#[test]
fn cleanup_on_fresh_instance_does_nothing() {
    let mut instance = PluginInstance::new(probe("a", PluginType::Compression));
    assert!(instance.cleanup().is_ok());
    assert!(!instance.is_initialized());
    assert_eq!(instance.plugin().cleaned, 0);
}

#[test]
fn cleanup_twice_runs_the_plugin_once() {
    let mut instance = PluginInstance::new(probe("a", PluginType::Compression));
    instance.initialize().unwrap();
    assert!(instance.cleanup().is_ok());
    assert!(!instance.is_initialized());
    assert!(instance.cleanup().is_ok());
    assert_eq!(instance.plugin().cleaned, 1);
}

#[test]
fn failed_cleanup_keeps_the_flag_set() {
    let mut p = probe("a", PluginType::Compression);
    p.fail_cleanup = true;
    let mut instance = PluginInstance::new(p);
    instance.initialize().unwrap();
    assert!(matches!(instance.cleanup(), Err(PluginError::Other(_))));
    assert!(instance.is_initialized());
}

#[test]
fn teardown_cleans_an_initialized_plugin_and_reports_the_failure() {
    let mut p = probe("a", PluginType::Compression);
    p.fail_cleanup = true;
    let mut instance = PluginInstance::new(p);
    instance.initialize().unwrap();
    match instance.teardown() {
        Some(PluginError::Other(detail)) => assert_eq!(detail, "busy"),
        _ => panic!("expected the cleanup failure"),
    }
    let fresh = PluginInstance::new(probe("b", PluginType::Compression));
    assert!(fresh.teardown().is_none());
}

#[test]
fn into_plugin_gives_up_only_an_uninitialized_plugin() {
    let fresh = PluginInstance::new(probe("a", PluginType::Compression));
    assert_eq!(fresh.into_plugin().ok().unwrap().get_config().name, "a");
    let mut used = PluginInstance::new(probe("b", PluginType::Compression));
    used.initialize().unwrap();
    match used.into_plugin() {
        Err(wrapper) => assert!(wrapper.is_initialized()),
        Ok(_) => panic!("an initialized plugin was handed out"),
    }
}

#[test]
fn registered_plugin_is_initialized() {
    let mut registry = PluginRegistry::new();
    registry.register("a".to_string(), probe("a", PluginType::Compression)).unwrap();
    let instance = registry.get("a").unwrap();
    assert!(instance.is_initialized());
    assert_eq!(instance.plugin().initialized, 1);
    assert!(registry.get("b").is_none());
}

#[test]
fn register_same_name_twice_fails_and_keeps_the_first() {
    let mut registry = PluginRegistry::new();
    registry.register("a".to_string(), probe("first", PluginType::Compression)).unwrap();
    match registry.register("a".to_string(), probe("second", PluginType::Transfer)) {
        Err(PluginError::AlreadyExists(name)) => assert_eq!(name, "a"),
        _ => panic!("expected AlreadyExists"),
    }
    let kept = registry.get("a").unwrap();
    assert!(kept.is_initialized());
    assert_eq!(kept.plugin().get_config().name, "first");
    assert_eq!(registry.list_names(), vec!["a".to_string()]);
}

#[test]
fn register_rejects_a_plugin_whose_initialize_fails() {
    let mut registry = PluginRegistry::new();
    let mut p = probe("a", PluginType::Compression);
    p.fail_initialize = true;
    assert!(matches!(
        registry.register("a".to_string(), p),
        Err(PluginError::ExecutionError(_))
    ));
    assert!(registry.get("a").is_none());
    assert!(registry.list_names().is_empty());
}

#[test]
fn register_plugin_takes_the_name_from_the_configuration() {
    let mut registry = PluginRegistry::new();
    registry.register_plugin(probe("from-config", PluginType::Transfer)).unwrap();
    assert!(registry.get("from-config").is_some());
}

#[test]
fn list_plugins_gives_metadata_in_registration_order() {
    let mut registry = PluginRegistry::new();
    registry.register("x".to_string(), probe("one", PluginType::Compression)).unwrap();
    registry.register("y".to_string(), probe("two", PluginType::Transfer)).unwrap();
    let listed = registry.list_plugins();
    assert_eq!(listed.len(), 2);
    assert_eq!(listed[0].name, "one");
    assert_eq!(listed[1].name, "two");
    assert_eq!(listed[1].author, "tests");
}

#[test]
fn get_plugins_by_type_filters_on_the_type_tag() {
    let mut registry = PluginRegistry::new();
    registry.register("x".to_string(), probe("one", PluginType::Compression)).unwrap();
    registry.register("y".to_string(), probe("two", PluginType::Transfer)).unwrap();
    registry.register("z".to_string(), probe("three", PluginType::Compression)).unwrap();
    registry
        .register("w".to_string(), probe("four", PluginType::Other("sync".to_string())))
        .unwrap();
    let found = registry.get_plugins_by_type(PluginType::Compression);
    assert_eq!(found.len(), 2);
    assert_eq!(found[0].plugin().get_config().name, "one");
    assert_eq!(found[1].plugin().get_config().name, "three");
    assert_eq!(registry.get_plugins_by_type(PluginType::Other("sync".to_string())).len(), 1);
    assert_eq!(registry.get_plugins_by_type(PluginType::Other("other".to_string())).len(), 0);
}

#[test]
fn cleanup_all_goes_past_a_failure() {
    let mut registry = PluginRegistry::new();
    let mut failing = probe("bad", PluginType::Compression);
    failing.fail_cleanup = true;
    registry.register("bad".to_string(), failing).unwrap();
    registry.register("good".to_string(), probe("good", PluginType::Compression)).unwrap();
    let failures = registry.cleanup_all();
    assert_eq!(failures.len(), 1);
    assert_eq!(failures[0].0, "bad");
    assert!(matches!(failures[0].1, PluginError::Other(_)));
    assert!(registry.get("bad").unwrap().is_initialized());
    let good = registry.get("good").unwrap();
    assert!(!good.is_initialized());
    assert_eq!(good.plugin().cleaned, 1);
}

#[test]
fn registry_initialize_stops_at_the_first_failure() {
    let mut registry = PluginRegistry::new();
    registry.register("a".to_string(), probe("a", PluginType::Compression)).unwrap();
    registry.register("b".to_string(), probe("b", PluginType::Compression)).unwrap();
    registry.register("c".to_string(), probe("c", PluginType::Compression)).unwrap();
    assert!(registry.cleanup_all().is_empty());
    registry.get_plugin_mut("b").unwrap().fail_initialize = true;
    assert!(matches!(registry.initialize(), Err(PluginError::ExecutionError(_))));
    assert!(registry.get("a").unwrap().is_initialized());
    assert!(!registry.get("b").unwrap().is_initialized());
    assert!(!registry.get("c").unwrap().is_initialized());
    assert_eq!(registry.get("c").unwrap().plugin().initialized, 1);
}

#[test]
fn get_mut_reaches_the_registered_instance() {
    let mut registry = PluginRegistry::new();
    registry.register("a".to_string(), probe("a", PluginType::Compression)).unwrap();
    registry.get_mut("a").unwrap().cleanup().unwrap();
    assert!(!registry.get("a").unwrap().is_initialized());
    assert!(registry.get_mut("missing").is_none());
}

#[test]
fn error_messages_keep_the_detail() {
    assert_eq!(PluginError::NotImplemented.message(), "Operation not implemented");
    assert_eq!(PluginError::NotFound("a.zip".to_string()).message(), "Not found: a.zip");
    assert_eq!(PluginError::AlreadyExists("x".to_string()).message(), "Already exists: x");
    assert_eq!(PluginError::InvalidInput("y".to_string()).message(), "Invalid input: y");
    assert_eq!(PluginError::ExecutionError("z".to_string()).message(), "Execution error: z");
    assert_eq!(PluginError::Other("w".to_string()).message(), "Error: w");
}

#[test]
fn type_tags_compare_by_kind_and_label() {
    assert!(PluginType::Compression.same_as(&PluginType::Compression));
    assert!(!PluginType::Compression.same_as(&PluginType::Transfer));
    assert!(PluginType::Other("a".to_string()).same_as(&PluginType::Other("a".to_string())));
    assert!(!PluginType::Other("a".to_string()).same_as(&PluginType::Other("b".to_string())));
}

#[test]
fn unregister_tears_the_instance_down_and_frees_the_name() {
    let mut registry = PluginRegistry::new();
    let mut failing = probe("bad", PluginType::Compression);
    failing.fail_cleanup = true;
    registry.register("bad".to_string(), failing).unwrap();
    registry.register("good".to_string(), probe("good", PluginType::Compression)).unwrap();
    registry.register("last".to_string(), probe("last", PluginType::Compression)).unwrap();
    match registry.unregister("bad") {
        (true, Some(PluginError::Other(detail))) => assert_eq!(detail, "busy"),
        _ => panic!("expected the cleanup failure"),
    }
    assert!(registry.get("bad").is_none());
    assert!(matches!(registry.unregister("good"), (true, None)));
    assert!(matches!(registry.unregister("good"), (false, None)));
    assert_eq!(registry.list_names(), vec!["last".to_string()]);
    assert!(registry.get("last").unwrap().is_initialized());
    registry.register("good".to_string(), probe("again", PluginType::Compression)).unwrap();
    assert_eq!(registry.list_names(), vec!["last".to_string(), "good".to_string()]);
}
