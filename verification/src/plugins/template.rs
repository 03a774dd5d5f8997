//! A plugin that does nothing yet: the starting point for a new adapter.

use vstd::prelude::*;
use vstd::string::StringExecFns;
use crate::plugin_api::base::{
    Plugin,
    PluginConfig,
    PluginConfigView,
    PluginError,
    PluginErrorView,
};
use crate::plugin_api::compression::CompressionPlugin;
use crate::plugin_api::files::{FileStore, Tree};
use crate::plugin_api::types::{
    CompressionOptions,
    PlatformSupport,
    PluginMetadata,
    PluginMetadataView,
    PluginType,
    PluginTypeView,
};

verus! {

/// The template plugin: it advertises itself and refuses every request.
#[derive(Debug)]
pub struct TemplatePlugin {
    config: PluginConfig,
    metadata: PluginMetadata,
}

impl TemplatePlugin {
    /// The configuration of every template plugin.
    pub open spec fn fixed_config() -> PluginConfigView {
        PluginConfigView {
            name: "template"@,
            description: "Template for creating new plugins"@,
            version: "1.0.0"@,
            plugin_type: PluginTypeView::Compression,
        }
    }

    /// The metadata of every template plugin.
    pub open spec fn fixed_metadata() -> PluginMetadataView {
        PluginMetadataView {
            name: "template"@,
            version: "1.0.0"@,
            author: "Smart Transfer Team"@,
            description: "Template for creating new plugins"@,
            plugin_type: PluginTypeView::Compression,
            platform_support: PlatformSupport { windows: true, linux: true, macos: true },
        }
    }

    /// The text of the error that every request ends in.
    pub open spec fn refusal_text() -> Seq<char> {
        "Not implemented"@
    }

    /// A plugin with the fixed configuration and metadata.
    pub fn new() -> (r: Self)
        ensures
            r.config() == Self::fixed_config(),
            r.metadata_view() == Self::fixed_metadata(),
    {
        TemplatePlugin {
            config: PluginConfig {
                name: String::from_str("template"),
                description: String::from_str("Template for creating new plugins"),
                version: String::from_str("1.0.0"),
                plugin_type: PluginType::Compression,
            },
            metadata: PluginMetadata {
                name: String::from_str("template"),
                version: String::from_str("1.0.0"),
                author: String::from_str("Smart Transfer Team"),
                description: String::from_str("Template for creating new plugins"),
                plugin_type: PluginType::Compression,
                platform_support: PlatformSupport { windows: true, linux: true, macos: true },
            },
        }
    }
}

impl Plugin for TemplatePlugin {
    closed spec fn config(&self) -> PluginConfigView {
        self.config@
    }

    closed spec fn metadata_view(&self) -> PluginMetadataView {
        self.metadata@
    }

    /// Initializing does nothing and succeeds.
    open spec fn initialize_allows(&self, after: &Self, outcome: Result<(), PluginErrorView>) -> bool {
        *after == *self && outcome is Ok
    }

    /// Cleaning up does nothing and succeeds.
    open spec fn cleanup_allows(&self, after: &Self, outcome: Result<(), PluginErrorView>) -> bool {
        *after == *self && outcome is Ok
    }

    fn get_config(&self) -> (c: &PluginConfig) {
        &self.config
    }

    fn metadata(&self) -> (m: PluginMetadata) {
        self.metadata.clone()
    }

    fn initialize(&mut self) -> (r: Result<(), PluginError>) {
        Ok(())
    }

    fn cleanup(&mut self) -> (r: Result<(), PluginError>) {
        Ok(())
    }
}

impl CompressionPlugin for TemplatePlugin {
    /// Nothing changes and the request is refused.
    open spec fn compress_allows(
        &self,
        before: Tree,
        input_files: Seq<Seq<char>>,
        output_file: Seq<char>,
        options: CompressionOptions,
        after: Tree,
        outcome: Result<(), PluginErrorView>,
    ) -> bool {
        after == before && outcome == Err::<(), PluginErrorView>(
            PluginErrorView::Other(Self::refusal_text()),
        )
    }

    /// Nothing changes and the request is refused.
    open spec fn decompress_allows(
        &self,
        before: Tree,
        archive_file: Seq<char>,
        output_dir: Seq<char>,
        overwrite: bool,
        after: Tree,
        outcome: Result<(), PluginErrorView>,
    ) -> bool {
        after == before && outcome == Err::<(), PluginErrorView>(
            PluginErrorView::Other(Self::refusal_text()),
        )
    }

    fn compress(
        &self,
        store: &mut FileStore,
        input_files: &Vec<String>,
        output_file: &String,
        options: &CompressionOptions,
    ) -> (r: Result<(), PluginError>) {
        Err(PluginError::Other(String::from_str("Not implemented")))
    }

    fn decompress(
        &self,
        store: &mut FileStore,
        archive_file: &String,
        output_dir: &String,
        overwrite: bool,
    ) -> (r: Result<(), PluginError>) {
        Err(PluginError::Other(String::from_str("Not implemented")))
    }
}

} // verus!
