//! Descriptive data that plugins and the host exchange.

use vstd::prelude::*;

verus! {

/// The kind of work a plugin does.
#[derive(Debug)]
pub enum PluginType {
    Compression,
    Transfer,
    Other(String),
}

/// Mathematical value of a [`PluginType`].
pub enum PluginTypeView {
    Compression,
    Transfer,
    Other(Seq<char>),
}

impl View for PluginType {
    type V = PluginTypeView;

    open spec fn view(&self) -> PluginTypeView {
        match self {
            PluginType::Compression => PluginTypeView::Compression,
            PluginType::Transfer => PluginTypeView::Transfer,
            PluginType::Other(s) => PluginTypeView::Other(s@),
        }
    }
}

impl Clone for PluginType {
    fn clone(&self) -> (r: Self)
        ensures
            r@ == self@,
    {
        match self {
            PluginType::Compression => PluginType::Compression,
            PluginType::Transfer => PluginType::Transfer,
            PluginType::Other(s) => PluginType::Other(s.clone()),
        }
    }
}

impl PluginType {
    /// Whether two type tags denote the same kind; `Other` tags are the same
    /// when their labels are equal.
    pub fn same_as(&self, other: &PluginType) -> (r: bool)
        ensures
            r == (self@ == other@),
    {
        match (self, other) {
            (PluginType::Compression, PluginType::Compression) => true,
            (PluginType::Transfer, PluginType::Transfer) => true,
            (PluginType::Other(a), PluginType::Other(b)) => *a == *b,
            _ => false,
        }
    }
}

/// The operating systems a plugin runs on.
#[derive(Clone, Copy, Debug, PartialEq, Eq, Structural)]
pub struct PlatformSupport {
    pub windows: bool,
    pub linux: bool,
    pub macos: bool,
}

/// Descriptive record shown to users for one plugin.
#[derive(Debug)]
pub struct PluginMetadata {
    pub name: String,
    pub version: String,
    pub author: String,
    pub description: String,
    pub plugin_type: PluginType,
    pub platform_support: PlatformSupport,
}

/// Mathematical value of a [`PluginMetadata`].
pub struct PluginMetadataView {
    pub name: Seq<char>,
    pub version: Seq<char>,
    pub author: Seq<char>,
    pub description: Seq<char>,
    pub plugin_type: PluginTypeView,
    pub platform_support: PlatformSupport,
}

impl View for PluginMetadata {
    type V = PluginMetadataView;

    open spec fn view(&self) -> PluginMetadataView {
        PluginMetadataView {
            name: self.name@,
            version: self.version@,
            author: self.author@,
            description: self.description@,
            plugin_type: self.plugin_type@,
            platform_support: self.platform_support,
        }
    }
}

impl Clone for PluginMetadata {
    fn clone(&self) -> (r: Self)
        ensures
            r@ == self@,
    {
        PluginMetadata {
            name: self.name.clone(),
            version: self.version.clone(),
            author: self.author.clone(),
            description: self.description.clone(),
            plugin_type: self.plugin_type.clone(),
            platform_support: self.platform_support,
        }
    }
}

/// How hard a codec should try.
#[derive(Clone, Copy, Debug, PartialEq, Eq, Structural)]
pub enum CompressionMode {
    Fast,
    Normal,
    Best,
}

/// Options for one compression call. Adapters read the fields they
/// understand and ignore the rest.
#[derive(Debug)]
pub struct CompressionOptions {
    pub mode: CompressionMode,
    pub password: Option<String>,
    pub split_size: Option<u64>,
    pub level: Option<i32>,
    pub extra_args: Vec<(String, String)>,
}

impl Default for CompressionOptions {
    fn default() -> (r: Self)
        ensures
            r.mode == CompressionMode::Normal,
            r.password is None,
            r.split_size is None,
            r.level is None,
            r.extra_args@.len() == 0,
    {
        CompressionOptions {
            mode: CompressionMode::Normal,
            password: None,
            split_size: None,
            level: None,
            extra_args: Vec::new(),
        }
    }
}

} // verus!
