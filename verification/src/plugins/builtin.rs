//! The closed set of plugins that are built into the host, behind the same
//! traits as any other plugin.

use vstd::prelude::*;
use crate::plugin_api::base::{
    Plugin,
    PluginConfig,
    PluginConfigView,
    PluginError,
    PluginErrorView,
    PluginFactory,
};
use crate::plugin_api::compression::CompressionPlugin;
use crate::plugin_api::files::{FileStore, Tree};
use crate::plugin_api::types::{CompressionOptions, PluginMetadata, PluginMetadataView};
use crate::plugins::sevenz::SevenZipPlugin;
use crate::plugins::template::TemplatePlugin;
use crate::plugins::zip::ZipPlugin;
use crate::plugins::zstd::ZstdPlugin;

verus! {

/// One of the built-in plugins. Every method does what the method of the
/// plugin inside does.
#[derive(Debug)]
pub enum BuiltinPlugin {
    Zip(ZipPlugin),
    SevenZip(SevenZipPlugin),
    Zstd(ZstdPlugin),
    Template(TemplatePlugin),
}

impl Plugin for BuiltinPlugin {
    open spec fn config(&self) -> PluginConfigView {
        match self {
            BuiltinPlugin::Zip(p) => p.config(),
            BuiltinPlugin::SevenZip(p) => p.config(),
            BuiltinPlugin::Zstd(p) => p.config(),
            BuiltinPlugin::Template(p) => p.config(),
        }
    }

    open spec fn metadata_view(&self) -> PluginMetadataView {
        match self {
            BuiltinPlugin::Zip(p) => p.metadata_view(),
            BuiltinPlugin::SevenZip(p) => p.metadata_view(),
            BuiltinPlugin::Zstd(p) => p.metadata_view(),
            BuiltinPlugin::Template(p) => p.metadata_view(),
        }
    }

    open spec fn initialize_allows(&self, after: &Self, outcome: Result<(), PluginErrorView>) -> bool {
        match (self, after) {
            (BuiltinPlugin::Zip(p), BuiltinPlugin::Zip(q)) => p.initialize_allows(q, outcome),
            (BuiltinPlugin::SevenZip(p), BuiltinPlugin::SevenZip(q)) => p.initialize_allows(
                q,
                outcome,
            ),
            (BuiltinPlugin::Zstd(p), BuiltinPlugin::Zstd(q)) => p.initialize_allows(q, outcome),
            (BuiltinPlugin::Template(p), BuiltinPlugin::Template(q)) => p.initialize_allows(
                q,
                outcome,
            ),
            _ => false,
        }
    }

    open spec fn cleanup_allows(&self, after: &Self, outcome: Result<(), PluginErrorView>) -> bool {
        match (self, after) {
            (BuiltinPlugin::Zip(p), BuiltinPlugin::Zip(q)) => p.cleanup_allows(q, outcome),
            (BuiltinPlugin::SevenZip(p), BuiltinPlugin::SevenZip(q)) => p.cleanup_allows(q, outcome),
            (BuiltinPlugin::Zstd(p), BuiltinPlugin::Zstd(q)) => p.cleanup_allows(q, outcome),
            (BuiltinPlugin::Template(p), BuiltinPlugin::Template(q)) => p.cleanup_allows(q, outcome),
            _ => false,
        }
    }

    fn get_config(&self) -> (c: &PluginConfig) {
        match self {
            BuiltinPlugin::Zip(p) => p.get_config(),
            BuiltinPlugin::SevenZip(p) => p.get_config(),
            BuiltinPlugin::Zstd(p) => p.get_config(),
            BuiltinPlugin::Template(p) => p.get_config(),
        }
    }

    fn metadata(&self) -> (m: PluginMetadata) {
        match self {
            BuiltinPlugin::Zip(p) => p.metadata(),
            BuiltinPlugin::SevenZip(p) => p.metadata(),
            BuiltinPlugin::Zstd(p) => p.metadata(),
            BuiltinPlugin::Template(p) => p.metadata(),
        }
    }

    fn initialize(&mut self) -> (r: Result<(), PluginError>) {
        match self {
            BuiltinPlugin::Zip(p) => p.initialize(),
            BuiltinPlugin::SevenZip(p) => p.initialize(),
            BuiltinPlugin::Zstd(p) => p.initialize(),
            BuiltinPlugin::Template(p) => p.initialize(),
        }
    }

    fn cleanup(&mut self) -> (r: Result<(), PluginError>) {
        match self {
            BuiltinPlugin::Zip(p) => p.cleanup(),
            BuiltinPlugin::SevenZip(p) => p.cleanup(),
            BuiltinPlugin::Zstd(p) => p.cleanup(),
            BuiltinPlugin::Template(p) => p.cleanup(),
        }
    }
}

impl CompressionPlugin for BuiltinPlugin {
    open spec fn compress_allows(
        &self,
        before: Tree,
        input_files: Seq<Seq<char>>,
        output_file: Seq<char>,
        options: CompressionOptions,
        after: Tree,
        outcome: Result<(), PluginErrorView>,
    ) -> bool {
        match self {
            BuiltinPlugin::Zip(p) => p.compress_allows(
                before,
                input_files,
                output_file,
                options,
                after,
                outcome,
            ),
            BuiltinPlugin::SevenZip(p) => p.compress_allows(
                before,
                input_files,
                output_file,
                options,
                after,
                outcome,
            ),
            BuiltinPlugin::Zstd(p) => p.compress_allows(
                before,
                input_files,
                output_file,
                options,
                after,
                outcome,
            ),
            BuiltinPlugin::Template(p) => p.compress_allows(
                before,
                input_files,
                output_file,
                options,
                after,
                outcome,
            ),
        }
    }

    open spec fn decompress_allows(
        &self,
        before: Tree,
        archive_file: Seq<char>,
        output_dir: Seq<char>,
        overwrite: bool,
        after: Tree,
        outcome: Result<(), PluginErrorView>,
    ) -> bool {
        match self {
            BuiltinPlugin::Zip(p) => p.decompress_allows(
                before,
                archive_file,
                output_dir,
                overwrite,
                after,
                outcome,
            ),
            BuiltinPlugin::SevenZip(p) => p.decompress_allows(
                before,
                archive_file,
                output_dir,
                overwrite,
                after,
                outcome,
            ),
            BuiltinPlugin::Zstd(p) => p.decompress_allows(
                before,
                archive_file,
                output_dir,
                overwrite,
                after,
                outcome,
            ),
            BuiltinPlugin::Template(p) => p.decompress_allows(
                before,
                archive_file,
                output_dir,
                overwrite,
                after,
                outcome,
            ),
        }
    }

    fn compress(
        &self,
        store: &mut FileStore,
        input_files: &Vec<String>,
        output_file: &String,
        options: &CompressionOptions,
    ) -> (r: Result<(), PluginError>) {
        match self {
            BuiltinPlugin::Zip(p) => p.compress(store, input_files, output_file, options),
            BuiltinPlugin::SevenZip(p) => p.compress(store, input_files, output_file, options),
            BuiltinPlugin::Zstd(p) => p.compress(store, input_files, output_file, options),
            BuiltinPlugin::Template(p) => p.compress(store, input_files, output_file, options),
        }
    }

    fn decompress(
        &self,
        store: &mut FileStore,
        archive_file: &String,
        output_dir: &String,
        overwrite: bool,
    ) -> (r: Result<(), PluginError>) {
        match self {
            BuiltinPlugin::Zip(p) => p.decompress(store, archive_file, output_dir, overwrite),
            BuiltinPlugin::SevenZip(p) => p.decompress(store, archive_file, output_dir, overwrite),
            BuiltinPlugin::Zstd(p) => p.decompress(store, archive_file, output_dir, overwrite),
            BuiltinPlugin::Template(p) => p.decompress(store, archive_file, output_dir, overwrite),
        }
    }
}

/// Which built-in plugin a factory makes.
#[derive(Clone, Copy, Debug, PartialEq, Eq, Structural)]
pub enum BuiltinKind {
    Zip,
    SevenZip,
    Zstd,
    Template,
}

/// The factory of one kind of built-in plugin. Every call hands over a new
/// plugin that nobody else owns.
#[derive(Clone, Copy, Debug)]
pub struct BuiltinFactory {
    pub kind: BuiltinKind,
}

/// The configuration of the built-in plugins of `kind`.
pub open spec fn config_of(kind: BuiltinKind) -> PluginConfigView {
    match kind {
        BuiltinKind::Zip => ZipPlugin::fixed_config(),
        BuiltinKind::SevenZip => SevenZipPlugin::fixed_config(),
        BuiltinKind::Zstd => ZstdPlugin::fixed_config(),
        BuiltinKind::Template => TemplatePlugin::fixed_config(),
    }
}

/// Whether `plugin` is of `kind`.
pub open spec fn is_of_kind(plugin: BuiltinPlugin, kind: BuiltinKind) -> bool {
    match kind {
        BuiltinKind::Zip => plugin is Zip,
        BuiltinKind::SevenZip => plugin is SevenZip,
        BuiltinKind::Zstd => plugin is Zstd,
        BuiltinKind::Template => plugin is Template,
    }
}

impl PluginFactory for BuiltinFactory {
    type Output = BuiltinPlugin;

    /// Makes a plugin of the factory's kind; it cannot fail.
    fn create(&self) -> (r: Result<BuiltinPlugin, PluginError>)
        ensures
            r is Ok,
            is_of_kind(r.unwrap(), self.kind),
            r.unwrap().config() == config_of(self.kind),
    {
        match self.kind {
            BuiltinKind::Zip => Ok(BuiltinPlugin::Zip(ZipPlugin::new())),
            BuiltinKind::SevenZip => Ok(BuiltinPlugin::SevenZip(SevenZipPlugin::new())),
            BuiltinKind::Zstd => Ok(BuiltinPlugin::Zstd(ZstdPlugin::new())),
            BuiltinKind::Template => Ok(BuiltinPlugin::Template(TemplatePlugin::new())),
        }
    }
}

} // verus!
