//! The commands that the presentation layer calls: they find the plugin by
//! name, check its capability, and report every failure as text.

use vstd::prelude::*;
use vstd::string::StringExecFns;
use crate::plugin_api::base::{Plugin, PluginErrorView};
use crate::plugin_api::compression::{paths_view, CompressionPlugin};
use crate::plugin_api::files::{FileStore, Tree};
use crate::plugin_api::types::{CompressionOptions, PluginMetadata};
use crate::plugins::registry::PluginRegistry;
use crate::plugins::PluginInstance;

verus! {

/// The text for a name under which no plugin is registered.
pub open spec fn not_found_text(name: Seq<char>) -> Seq<char> {
    "Plugin '"@ + name + "' not found"@
}

/// The text for a plugin that does not offer compression.
pub open spec fn not_compression_text(name: Seq<char>) -> Seq<char> {
    "Plugin '"@ + name + "' is not a compression plugin"@
}

/// A plugin's outcome as the presentation layer gets it: the error's
/// user-facing text.
pub open spec fn as_text(outcome: Result<(), PluginErrorView>) -> Result<(), Seq<char>> {
    match outcome {
        Ok(()) => Ok(()),
        Err(e) => Err(e.message()),
    }
}

/// The view of a command's result.
pub open spec fn text_view(r: Result<(), String>) -> Result<(), Seq<char>> {
    match r {
        Ok(()) => Ok(()),
        Err(text) => Err(text@),
    }
}

/// What a command establishes before it reaches the plugin: an unknown
/// name and a plugin without the capability are refused with their texts
/// and the store is left alone.
pub open spec fn refused<P: CompressionPlugin>(
    registry: PluginRegistry<P>,
    name: Seq<char>,
    before: Tree,
    after: Tree,
    result: Result<(), Seq<char>>,
) -> bool {
    match registry.lookup(name) {
        None => after == before && result == Err::<(), Seq<char>>(not_found_text(name)),
        Some(instance) => !instance.offers_compression() ==> after == before && result == Err::<
            (),
            Seq<char>,
        >(not_compression_text(name)),
    }
}

fn find_compressor<'a, P: CompressionPlugin>(registry: &'a PluginRegistry<P>, name: &str) -> (r:
    Result<&'a PluginInstance<P>, String>)
    requires
        registry.wf(),
    ensures
        match r {
            Ok(instance) => registry.lookup(name@) == Some(*instance)
                && instance.offers_compression(),
            Err(text) => match registry.lookup(name@) {
                None => text@ == not_found_text(name@),
                Some(instance) => !instance.offers_compression() && text@ == not_compression_text(
                    name@,
                ),
            },
        },
{
    match registry.get(name) {
        None => Err(String::from_str("Plugin '").concat(name).concat("' not found")),
        Some(instance) => {
            if instance.as_compression_plugin().is_some() {
                Ok(instance)
            } else {
                Err(
                    String::from_str("Plugin '").concat(name).concat(
                        "' is not a compression plugin",
                    ),
                )
            }
        },
    }
}

/// Packs `input_files` into `output_file` with the plugin registered as
/// `plugin_name`.
pub fn compress_files<P: CompressionPlugin>(
    registry: &PluginRegistry<P>,
    store: &mut FileStore,
    plugin_name: &str,
    input_files: &Vec<String>,
    output_file: &String,
    options: &CompressionOptions,
) -> (r: Result<(), String>)
    requires
        registry.wf(),
        old(store).wf(),
    ensures
        final(store).wf(),
        refused(*registry, plugin_name@, old(store)@, final(store)@, text_view(r)),
        registry.lookup(plugin_name@) is Some && registry.lookup(
            plugin_name@,
        ).unwrap().offers_compression() ==> exists|outcome: Result<(), PluginErrorView>|
            {
                &&& #[trigger] registry.lookup(plugin_name@).unwrap().inner().compress_allows(
                    old(store)@,
                    paths_view(input_files@),
                    output_file@,
                    *options,
                    final(store)@,
                    outcome,
                )
                &&& text_view(r) == as_text(outcome)
            },
{
    let instance = match find_compressor(registry, plugin_name) {
        Err(text) => {
            return Err(text);
        },
        Ok(instance) => instance,
    };
    match instance.compress(store, input_files, output_file, options) {
        Ok(()) => Ok(()),
        Err(e) => Err(e.message()),
    }
}

/// Unpacks `archive_file` below `output_dir` with the plugin registered as
/// `plugin_name`, replacing files that exist.
pub fn decompress_file<P: CompressionPlugin>(
    registry: &PluginRegistry<P>,
    store: &mut FileStore,
    plugin_name: &str,
    archive_file: &String,
    output_dir: &String,
) -> (r: Result<(), String>)
    requires
        registry.wf(),
        old(store).wf(),
    ensures
        final(store).wf(),
        refused(*registry, plugin_name@, old(store)@, final(store)@, text_view(r)),
        registry.lookup(plugin_name@) is Some && registry.lookup(
            plugin_name@,
        ).unwrap().offers_compression() ==> exists|outcome: Result<(), PluginErrorView>|
            {
                &&& #[trigger] registry.lookup(plugin_name@).unwrap().inner().decompress_allows(
                    old(store)@,
                    archive_file@,
                    output_dir@,
                    true,
                    final(store)@,
                    outcome,
                )
                &&& text_view(r) == as_text(outcome)
            },
{
    let instance = match find_compressor(registry, plugin_name) {
        Err(text) => {
            return Err(text);
        },
        Ok(instance) => instance,
    };
    match instance.decompress(store, archive_file, output_dir, true) {
        Ok(()) => Ok(()),
        Err(e) => Err(e.message()),
    }
}

/// The metadata of every registered plugin, oldest registration first.
pub fn list_plugins<P: Plugin>(registry: &PluginRegistry<P>) -> (r: Vec<PluginMetadata>)
    ensures
        r@.len() == registry.instances().len(),
        forall|i: int|
            0 <= i < r@.len() ==> (#[trigger] r@[i])@
                == registry.instances()[i].inner().metadata_view(),
{
    registry.list_plugins()
}

} // verus!
