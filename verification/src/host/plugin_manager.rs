//! The plugin manager: a registry of the built-in plugins.

use vstd::prelude::*;
use crate::plugin_api::base::{outcome_view, Plugin, PluginError, PluginErrorView};
use crate::plugin_api::types::PluginMetadata;
use crate::plugins::builtin::BuiltinPlugin;
use crate::plugins::registry::PluginRegistry;
use crate::plugins::sevenz::SevenZipPlugin;
use crate::plugins::zip::ZipPlugin;
use crate::plugins::PluginInstance;

verus! {

/// Owns the registry of the host's plugins.
pub struct PluginManager {
    registry: PluginRegistry<BuiltinPlugin>,
}

impl PluginManager {
    /// The registry inside.
    pub closed spec fn registry(&self) -> PluginRegistry<BuiltinPlugin> {
        self.registry
    }

    /// The registry inside is well formed.
    pub open spec fn wf(&self) -> bool {
        self.registry().wf()
    }

    /// Whether `plugin` is a ZIP plugin with the fixed configuration.
    pub open spec fn is_default_zip(plugin: BuiltinPlugin) -> bool {
        plugin is Zip && plugin.config() == ZipPlugin::fixed_config()
    }

    /// Whether `plugin` is a 7z plugin with the fixed configuration.
    pub open spec fn is_default_sevenz(plugin: BuiltinPlugin) -> bool {
        plugin is SevenZip && plugin.config() == SevenZipPlugin::fixed_config()
    }

    /// What [`PluginManager::register_default_plugins`] establishes on the
    /// registry. The ZIP plugin is registered first, then the 7z plugin,
    /// each under the name of its configuration and initialized. A name
    /// that is taken stops the registration with `AlreadyExists`; what was
    /// registered before stays.
    pub open spec fn defaults_post(
        pre: PluginRegistry<BuiltinPlugin>,
        post: PluginRegistry<BuiltinPlugin>,
        outcome: Result<(), PluginErrorView>,
    ) -> bool {
        let zip_name = ZipPlugin::fixed_config().name;
        let sevenz_name = SevenZipPlugin::fixed_config().name;
        if pre.names().contains(zip_name) {
            post == pre && outcome == Err::<(), PluginErrorView>(
                PluginErrorView::AlreadyExists(zip_name),
            )
        } else if pre.names().push(zip_name).contains(sevenz_name) {
            &&& outcome == Err::<(), PluginErrorView>(PluginErrorView::AlreadyExists(sevenz_name))
            &&& post.names() == pre.names().push(zip_name)
            &&& post.instances().len() == pre.instances().len() + 1
            &&& post.instances().drop_last() == pre.instances()
            &&& post.instances().last().initialized()
            &&& Self::is_default_zip(post.instances().last().inner())
        } else {
            &&& outcome is Ok
            &&& post.names() == pre.names().push(zip_name).push(sevenz_name)
            &&& post.instances().len() == pre.instances().len() + 2
            &&& post.instances().subrange(0, pre.instances().len() as int) == pre.instances()
            &&& post.instances()[pre.instances().len() as int].initialized()
            &&& Self::is_default_zip(post.instances()[pre.instances().len() as int].inner())
            &&& post.instances().last().initialized()
            &&& Self::is_default_sevenz(post.instances().last().inner())
        }
    }

    /// A manager without plugins.
    pub fn new() -> (r: Self)
        ensures
            r.wf(),
            r.registry().names() == Seq::<Seq<char>>::empty(),
            r.registry().instances() == Seq::<PluginInstance<BuiltinPlugin>>::empty(),
    {
        PluginManager { registry: PluginRegistry::new() }
    }

    /// Shared access to the registry inside.
    pub fn plugins(&self) -> (r: &PluginRegistry<BuiltinPlugin>)
        ensures
            *r == self.registry(),
    {
        &self.registry
    }

    /// Registers the ZIP plugin and the 7z plugin.
    pub fn register_default_plugins(&mut self) -> (r: Result<(), PluginError>)
        requires
            old(self).wf(),
        ensures
            final(self).wf(),
            Self::defaults_post(old(self).registry(), final(self).registry(), outcome_view(r)),
            old(self).registry().all_initialized() ==> final(self).registry().all_initialized(),
    {
        let ghost pre = self.registry;
        let zip_plugin = BuiltinPlugin::Zip(ZipPlugin::new());
        match self.registry.register_plugin(zip_plugin) {
            Err(e) => {
                return Err(e);
            },
            Ok(()) => {},
        }
        let ghost mid = self.registry;
        let sevenz_plugin = BuiltinPlugin::SevenZip(SevenZipPlugin::new());
        match self.registry.register_plugin(sevenz_plugin) {
            Err(e) => Err(e),
            Ok(()) => {
                proof {
                    assert(self.registry.instances().subrange(0, pre.instances().len() as int)
                        =~= pre.instances()) by {
                        assert(self.registry.instances().drop_last() == mid.instances());
                        assert(mid.instances().drop_last() == pre.instances());
                    }
                    assert(self.registry.instances()[pre.instances().len() as int]
                        == mid.instances().last()) by {
                        assert(self.registry.instances().drop_last() == mid.instances());
                    }
                }
                Ok(())
            },
        }
    }

    /// The plugin registered under `name`, or nothing.
    pub fn get_plugin(&self, name: &str) -> (r: Option<&BuiltinPlugin>)
        requires
            self.wf(),
        ensures
            match r {
                Some(plugin) => self.registry().lookup(name@) is Some && self.registry().lookup(
                    name@,
                ).unwrap().inner() == *plugin,
                None => self.registry().lookup(name@) is None,
            },
    {
        self.registry.get_plugin(name)
    }

    /// Exclusive access to the plugin registered under `name`, or nothing.
    /// The entry keeps its flag; no other entry changes.
    pub fn get_plugin_mut(&mut self, name: &str) -> (r: Option<&mut BuiltinPlugin>)
        requires
            old(self).wf(),
        ensures
            final(self).registry().names() == old(self).registry().names(),
            match r {
                Some(plugin) => {
                    &&& old(self).registry().lookup(name@) is Some
                    &&& old(self).registry().lookup(name@).unwrap().inner() == *plugin
                    &&& final(self).registry().instances()
                        == old(self).registry().instances().update(
                        old(self).registry().names().index_of(name@),
                        PluginInstance::of(
                            *final(plugin),
                            old(self).registry().lookup(name@).unwrap().initialized(),
                        ),
                    )
                },
                None => {
                    &&& old(self).registry().lookup(name@) is None
                    &&& final(self).registry().instances() == old(self).registry().instances()
                },
            },
    {
        self.registry.get_plugin_mut(name)
    }

    /// The lifecycle wrapper registered under `name`, or nothing.
    pub fn get_instance(&self, name: &str) -> (r: Option<&PluginInstance<BuiltinPlugin>>)
        requires
            self.wf(),
        ensures
            match r {
                Some(instance) => self.registry().lookup(name@) == Some(*instance),
                None => self.registry().lookup(name@) is None,
            },
    {
        self.registry.get(name)
    }

    /// The metadata of every registered plugin, oldest registration first.
    pub fn list_plugins(&self) -> (r: Vec<PluginMetadata>)
        ensures
            r@.len() == self.registry().instances().len(),
            forall|i: int|
                0 <= i < r@.len() ==> (#[trigger] r@[i])@
                    == self.registry().instances()[i].inner().metadata_view(),
    {
        self.registry.list_plugins()
    }

    /// Cleans up every registered plugin. The built-in plugins' cleanups
    /// cannot fail: afterwards every entry holds the plugin it held, not
    /// initialized.
    pub fn cleanup(&mut self) -> (r: Result<(), PluginError>)
        requires
            old(self).wf(),
        ensures
            final(self).wf(),
            r is Ok,
            final(self).registry().names() == old(self).registry().names(),
            final(self).registry().instances().len() == old(self).registry().instances().len(),
            forall|i: int|
                0 <= i < old(self).registry().instances().len() ==> {
                    &&& !(#[trigger] final(self).registry().instances()[i]).initialized()
                    &&& final(self).registry().instances()[i].inner()
                        == old(self).registry().instances()[i].inner()
                },
    {
        let ghost pre = self.registry;
        let failures = self.registry.cleanup_all();
        proof {
            let post = self.registry;
            let outcomes = choose|outcomes: Seq<Result<(), PluginErrorView>>| #[trigger]
                PluginRegistry::cleanup_all_post(pre, post, outcomes);
            assert forall|i: int| 0 <= i < pre.instances().len() implies {
                &&& !(#[trigger] post.instances()[i]).initialized()
                &&& post.instances()[i].inner() == pre.instances()[i].inner()
            } by {
                assert(PluginInstance::cleanup_post(
                    pre.instances()[i],
                    post.instances()[i],
                    outcomes[i],
                ));
            }
        }
        Ok(())
    }
}

} // verus!
