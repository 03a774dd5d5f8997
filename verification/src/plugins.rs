//! The lifecycle wrapper around one plugin, and the modules built on it.

use vstd::prelude::*;
use vstd::string::StringExecFns;
use crate::plugin_api::base::{outcome_view, Plugin, PluginError, PluginErrorView};
use crate::plugin_api::compression::{paths_view, CompressionPlugin};
use crate::plugin_api::files::FileStore;
use crate::plugin_api::types::{CompressionOptions, PluginType, PluginTypeView};

pub mod archive;
pub mod builtin;
pub mod loader;
pub mod registry;
pub mod sevenz;
pub mod sevenz_tool;
pub mod template;
pub mod zip;
pub mod zstd;

verus! {

/// One plugin together with the flag that says whether it is initialized.
///
/// The flag changes only through [`PluginInstance::initialize`] and
/// [`PluginInstance::cleanup`], which call the plugin at most once per
/// transition.
pub struct PluginInstance<P: Plugin> {
    plugin: P,
    initialized: bool,
}

impl<P: Plugin> PluginInstance<P> {
    /// Whether the wrapped plugin is currently initialized.
    pub closed spec fn initialized(&self) -> bool {
        self.initialized
    }

    /// The wrapped plugin.
    pub closed spec fn inner(&self) -> P {
        self.plugin
    }

    /// The wrapper holding `plugin` with the given flag.
    pub closed spec fn of(plugin: P, initialized: bool) -> Self {
        PluginInstance { plugin, initialized }
    }

    /// A wrapper is what it was made of: it holds the plugin and the flag,
    /// and two wrappers that hold the same are the same.
    pub proof fn lemma_of(plugin: P, initialized: bool)
        ensures
            Self::of(plugin, initialized).initialized() == initialized,
            Self::of(plugin, initialized).inner() == plugin,
            forall|w: Self| w == Self::of(w.inner(), w.initialized()),
    {
    }

    /// What one call of [`PluginInstance::initialize`] establishes: nothing
    /// changes when the flag is already set; otherwise the plugin's own
    /// `initialize` ran once and the flag records whether it succeeded.
    pub open spec fn initialize_post(
        pre: Self,
        post: Self,
        outcome: Result<(), PluginErrorView>,
    ) -> bool {
        if pre.initialized() {
            outcome is Ok && post == pre
        } else {
            &&& pre.inner().initialize_allows(&post.inner(), outcome)
            &&& post.initialized() == (outcome is Ok)
        }
    }

    /// What one call of [`PluginInstance::cleanup`] establishes: nothing
    /// changes when the flag is clear; otherwise the plugin's own `cleanup`
    /// ran once and the flag stays set exactly when it failed.
    pub open spec fn cleanup_post(
        pre: Self,
        post: Self,
        outcome: Result<(), PluginErrorView>,
    ) -> bool {
        if !pre.initialized() {
            outcome is Ok && post == pre
        } else {
            &&& pre.inner().cleanup_allows(&post.inner(), outcome)
            &&& post.initialized() == (outcome is Err)
        }
    }

    /// The outcome of the cleanup that a teardown reported as `failure`.
    pub open spec fn teardown_outcome(failure: Option<PluginError>) -> Result<
        (),
        PluginErrorView,
    > {
        match failure {
            Some(e) => Err(e@),
            None => Ok(()),
        }
    }

    /// Wraps a plugin that has not been initialized yet.
    pub fn new(plugin: P) -> (r: Self)
        ensures
            r == Self::of(plugin, false),
            !r.initialized(),
            r.inner() == plugin,
    {
        PluginInstance { plugin, initialized: false }
    }

    /// Whether the wrapped plugin is currently initialized.
    pub fn is_initialized(&self) -> (r: bool)
        ensures
            r == self.initialized(),
    {
        self.initialized
    }

    /// Shared access to the wrapped plugin.
    pub fn plugin(&self) -> (r: &P)
        ensures
            *r == self.inner(),
    {
        &self.plugin
    }

    /// Takes the plugin out of a wrapper that is not initialized. A wrapper
    /// that is initialized is handed back as it is: its plugin is owed a
    /// cleanup first.
    pub fn into_plugin(self) -> (r: Result<P, Self>)
        ensures
            match r {
                Ok(plugin) => !self.initialized() && plugin == self.inner(),
                Err(wrapper) => self.initialized() && wrapper == self,
            },
    {
        if self.initialized {
            Err(self)
        } else {
            Ok(self.plugin)
        }
    }

    /// Exclusive access to the wrapped plugin; the flag is not touched.
    pub fn plugin_mut(&mut self) -> (r: &mut P)
        ensures
            *r == old(self).inner(),
            *final(self) == Self::of(*final(r), old(self).initialized()),
            final(self).inner() == *final(r),
            final(self).initialized() == old(self).initialized(),
    {
        &mut self.plugin
    }

    /// Initializes the plugin unless it already is.
    pub fn initialize(&mut self) -> (r: Result<(), PluginError>)
        ensures
            Self::initialize_post(*old(self), *final(self), outcome_view(r)),
    {
        if !self.initialized {
            match self.plugin.initialize() {
                Ok(()) => {
                    self.initialized = true;
                    Ok(())
                },
                Err(e) => Err(e),
            }
        } else {
            Ok(())
        }
    }

    /// Cleans the plugin up unless it is not initialized.
    pub fn cleanup(&mut self) -> (r: Result<(), PluginError>)
        ensures
            Self::cleanup_post(*old(self), *final(self), outcome_view(r)),
    {
        if self.initialized {
            match self.plugin.cleanup() {
                Ok(()) => {
                    self.initialized = false;
                    Ok(())
                },
                Err(e) => Err(e),
            }
        } else {
            Ok(())
        }
    }

    /// Gives the wrapper up: a plugin that is still initialized is cleaned
    /// up once, and a failure of that cleanup is handed back for the log
    /// instead of being raised.
    pub fn teardown(self) -> (r: Option<PluginError>)
        ensures
            !self.initialized() ==> r is None,
            self.initialized() ==> exists|after: P| #[trigger]
                self.inner().cleanup_allows(&after, Self::teardown_outcome(r)),
    {
        let mut this = self;
        if this.initialized {
            let outcome = this.plugin.cleanup();
            assert(self.inner().cleanup_allows(&this.plugin, outcome_view(outcome)));
            match outcome {
                Ok(()) => None,
                Err(e) => Some(e),
            }
        } else {
            None
        }
    }
}

impl<P: CompressionPlugin> PluginInstance<P> {
    /// Whether the wrapped plugin offers the compression capability: its
    /// configuration carries the type `Compression`.
    pub open spec fn offers_compression(&self) -> bool {
        self.inner().config().plugin_type == PluginTypeView::Compression
    }

    /// The text of the error for a plugin that cannot compress.
    pub open spec fn no_compression_text() -> Seq<char> {
        "Plugin does not support compression"@
    }

    /// The text of the error for a plugin that cannot decompress.
    pub open spec fn no_decompression_text() -> Seq<char> {
        "Plugin does not support decompression"@
    }

    /// The plugin seen as a compression plugin, or nothing where it does
    /// not offer that capability.
    pub fn as_compression_plugin(&self) -> (r: Option<&P>)
        ensures
            match r {
                Some(plugin) => self.offers_compression() && *plugin == self.inner(),
                None => !self.offers_compression(),
            },
    {
        match self.plugin.get_config().plugin_type {
            PluginType::Compression => Some(&self.plugin),
            _ => None,
        }
    }

    /// Packs `input_files` into `output_file` with the wrapped plugin. A
    /// plugin without the compression capability is refused with `Other`
    /// and the store is left alone.
    pub fn compress(
        &self,
        store: &mut FileStore,
        input_files: &Vec<String>,
        output_file: &String,
        options: &CompressionOptions,
    ) -> (r: Result<(), PluginError>)
        requires
            old(store).wf(),
        ensures
            final(store).wf(),
            self.offers_compression() ==> self.inner().compress_allows(
                old(store)@,
                paths_view(input_files@),
                output_file@,
                *options,
                final(store)@,
                outcome_view(r),
            ),
            !self.offers_compression() ==> final(store)@ == old(store)@ && outcome_view(r) == Err::<
                (),
                PluginErrorView,
            >(PluginErrorView::Other(Self::no_compression_text())),
    {
        match self.as_compression_plugin() {
            Some(plugin) => plugin.compress(store, input_files, output_file, options),
            None => Err(PluginError::Other(String::from_str("Plugin does not support compression"))),
        }
    }

    /// Unpacks `archive_file` below `output_dir` with the wrapped plugin.
    /// A plugin without the compression capability is refused with `Other`
    /// and the store is left alone.
    pub fn decompress(
        &self,
        store: &mut FileStore,
        archive_file: &String,
        output_dir: &String,
        overwrite: bool,
    ) -> (r: Result<(), PluginError>)
        requires
            old(store).wf(),
        ensures
            final(store).wf(),
            self.offers_compression() ==> self.inner().decompress_allows(
                old(store)@,
                archive_file@,
                output_dir@,
                overwrite,
                final(store)@,
                outcome_view(r),
            ),
            !self.offers_compression() ==> final(store)@ == old(store)@ && outcome_view(r) == Err::<
                (),
                PluginErrorView,
            >(PluginErrorView::Other(Self::no_decompression_text())),
    {
        match self.as_compression_plugin() {
            Some(plugin) => plugin.decompress(store, archive_file, output_dir, overwrite),
            None => Err(
                PluginError::Other(String::from_str("Plugin does not support decompression")),
            ),
        }
    }
}

/// Initializing an instance that a successful `initialize` has just left
/// behind changes nothing and succeeds: the plugin's own `initialize` is not
/// run a second time.
pub proof fn lemma_initialize_twice<P: Plugin>(
    start: PluginInstance<P>,
    middle: PluginInstance<P>,
    end: PluginInstance<P>,
    first: Result<(), PluginErrorView>,
    second: Result<(), PluginErrorView>,
)
    requires
        PluginInstance::initialize_post(start, middle, first),
        PluginInstance::initialize_post(middle, end, second),
        first is Ok,
    ensures
        second is Ok,
        end == middle,
{
}

/// Cleaning up an instance that `cleanup` has just left clean changes
/// nothing and succeeds.
pub proof fn lemma_cleanup_twice<P: Plugin>(
    start: PluginInstance<P>,
    middle: PluginInstance<P>,
    end: PluginInstance<P>,
    first: Result<(), PluginErrorView>,
    second: Result<(), PluginErrorView>,
)
    requires
        PluginInstance::cleanup_post(start, middle, first),
        PluginInstance::cleanup_post(middle, end, second),
        first is Ok,
    ensures
        second is Ok,
        end == middle,
{
}

/// Cleaning up an instance that was never initialized succeeds and leaves
/// the plugin as it was handed in.
pub proof fn lemma_cleanup_fresh<P: Plugin>(
    plugin: P,
    after: PluginInstance<P>,
    outcome: Result<(), PluginErrorView>,
)
    requires
        PluginInstance::cleanup_post(PluginInstance::of(plugin, false), after, outcome),
    ensures
        outcome is Ok,
        after == PluginInstance::of(plugin, false),
        after.inner() == plugin,
        !after.initialized(),
{
}

} // verus!
