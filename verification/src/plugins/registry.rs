//! The registry: the owner of every active, named plugin instance.

use vstd::prelude::*;
use crate::plugin_api::base::{outcome_view, Plugin, PluginError, PluginErrorView};
use crate::plugin_api::types::{PluginMetadata, PluginType, PluginTypeView};
use crate::plugins::PluginInstance;

verus! {

/// The failures among `outcomes`, each with the name at its position, in
/// the order of the positions.
pub open spec fn failures_of(
    names: Seq<Seq<char>>,
    outcomes: Seq<Result<(), PluginErrorView>>,
) -> Seq<(Seq<char>, PluginErrorView)>
    decreases outcomes.len(),
{
    if outcomes.len() == 0 || names.len() != outcomes.len() {
        Seq::empty()
    } else {
        let earlier = failures_of(names.drop_last(), outcomes.drop_last());
        match outcomes.last() {
            Ok(()) => earlier,
            Err(e) => earlier.push((names.last(), e)),
        }
    }
}

/// The first of `failures` as the outcome of a whole cleanup.
pub open spec fn first_failure(failures: Seq<(Seq<char>, PluginErrorView)>) -> Result<
    (),
    PluginErrorView,
> {
    if failures.len() == 0 {
        Ok(())
    } else {
        Err(failures[0].1)
    }
}

/// The views of a list of named failures.
pub open spec fn failures_view(failures: Seq<(String, PluginError)>) -> Seq<
    (Seq<char>, PluginErrorView),
> {
    Seq::new(failures.len(), |i: int| (failures[i].0@, failures[i].1@))
}

struct Entry<P: Plugin> {
    name: String,
    instance: PluginInstance<P>,
}

/// Named plugin instances in the order of their registration.
pub struct PluginRegistry<P: Plugin> {
    entries: Vec<Entry<P>>,
}

impl<P: Plugin> PluginRegistry<P> {
    /// The registered names, oldest first.
    pub closed spec fn names(&self) -> Seq<Seq<char>> {
        Seq::new(self.entries@.len(), |i: int| self.entries@[i].name@)
    }

    /// The registered instances, in the order of `names`.
    pub closed spec fn instances(&self) -> Seq<PluginInstance<P>> {
        Seq::new(self.entries@.len(), |i: int| self.entries@[i].instance)
    }

    /// No name is registered twice.
    pub open spec fn wf(&self) -> bool {
        &&& self.names().no_duplicates()
        &&& self.names().len() == self.instances().len()
    }

    /// The instance registered under `name`, if any.
    pub open spec fn lookup(&self, name: Seq<char>) -> Option<PluginInstance<P>> {
        if self.names().contains(name) {
            Some(self.instances()[self.names().index_of(name)])
        } else {
            None
        }
    }

    /// Every registered instance is initialized.
    pub open spec fn all_initialized(&self) -> bool {
        forall|i: int|
            0 <= i < self.instances().len() ==> (#[trigger] self.instances()[i]).initialized()
    }

    /// What [`PluginRegistry::register`] establishes. A taken name is
    /// refused and nothing changes. Otherwise the plugin's `initialize` ran
    /// once: on success the initialized instance is appended under `name`,
    /// on failure nothing changes and the plugin's error is the outcome.
    pub open spec fn register_post(
        pre: Self,
        name: Seq<char>,
        plugin: P,
        post: Self,
        outcome: Result<(), PluginErrorView>,
    ) -> bool {
        if pre.names().contains(name) {
            outcome == Err::<(), PluginErrorView>(PluginErrorView::AlreadyExists(name)) && post
                == pre
        } else {
            match outcome {
                Ok(()) => {
                    &&& post.names() == pre.names().push(name)
                    &&& post.instances().len() == pre.instances().len() + 1
                    &&& post.instances().drop_last() == pre.instances()
                    &&& post.instances().last().initialized()
                    &&& plugin.initialize_allows(&post.instances().last().inner(), outcome)
                },
                Err(e) => post == pre && exists|after: P| #[trigger]
                    plugin.initialize_allows(&after, outcome),
            }
        }
    }

    /// The registered instances whose configuration carries the type `tag`,
    /// in registration order.
    pub open spec fn of_type(&self, tag: PluginTypeView) -> Seq<PluginInstance<P>> {
        self.instances().filter(
            |instance: PluginInstance<P>| instance.inner().config().plugin_type == tag,
        )
    }

    /// What [`PluginRegistry::cleanup_all`] establishes when the entries'
    /// cleanups ended in `outcomes`: every entry went through one `cleanup`,
    /// whatever became of the others.
    pub open spec fn cleanup_all_post(
        pre: Self,
        post: Self,
        outcomes: Seq<Result<(), PluginErrorView>>,
    ) -> bool {
        &&& post.names() == pre.names()
        &&& post.instances().len() == pre.instances().len()
        &&& outcomes.len() == pre.instances().len()
        &&& forall|i: int|
            0 <= i < pre.instances().len() ==> PluginInstance::cleanup_post(
                pre.instances()[i],
                post.instances()[i],
                #[trigger] outcomes[i],
            )
    }

    /// The entries before position `stop` were initialized successfully and
    /// the entries after it were left alone.
    pub open spec fn initialized_up_to(pre: Self, post: Self, stop: int) -> bool {
        &&& post.names() == pre.names()
        &&& post.instances().len() == pre.instances().len()
        &&& forall|i: int|
            0 <= i < pre.instances().len() && i < stop ==> PluginInstance::initialize_post(
                pre.instances()[i],
                #[trigger] post.instances()[i],
                Ok(()),
            )
        &&& forall|i: int|
            0 <= i < pre.instances().len() && i > stop ==> #[trigger] post.instances()[i]
                == pre.instances()[i]
    }

    /// What [`PluginRegistry::initialize`] establishes: entries are
    /// initialized in registration order up to the first failure, which is
    /// the outcome.
    pub open spec fn initialize_all_post(
        pre: Self,
        post: Self,
        outcome: Result<(), PluginErrorView>,
    ) -> bool {
        match outcome {
            Ok(()) => Self::initialized_up_to(pre, post, pre.instances().len() as int),
            Err(e) => exists|stop: int|
                {
                    &&& 0 <= stop < pre.instances().len()
                    &&& #[trigger] Self::initialized_up_to(pre, post, stop)
                    &&& PluginInstance::initialize_post(
                        pre.instances()[stop],
                        post.instances()[stop],
                        outcome,
                    )
                },
        }
    }

    /// An empty registry.
    pub fn new() -> (r: Self)
        ensures
            r.wf(),
            r.names() == Seq::<Seq<char>>::empty(),
            r.instances() == Seq::<PluginInstance<P>>::empty(),
    {
        let r = PluginRegistry { entries: Vec::new() };
        assert(r.names() =~= Seq::<Seq<char>>::empty());
        assert(r.instances() =~= Seq::<PluginInstance<P>>::empty());
        r
    }

    fn position(&self, name: &str) -> (r: Option<usize>)
        requires
            self.wf(),
        ensures
            match r {
                Some(i) => i < self.names().len() && self.names()[i as int] == name@
                    && self.names().index_of(name@) == i,
                None => !self.names().contains(name@),
            },
    {
        let key = name.to_owned();
        let mut i: usize = 0;
        while i < self.entries.len()
            invariant
                self.wf(),
                i <= self.entries@.len(),
                key@ == name@,
                forall|j: int| 0 <= j < i ==> self.names()[j] != name@,
            decreases self.entries@.len() - i,
        {
            if self.entries[i].name == key {
                assert(self.names()[i as int] == name@);
                return Some(i);
            }
            i += 1;
        }
        None
    }

    /// The instance registered under `name`, or nothing.
    pub fn get(&self, name: &str) -> (r: Option<&PluginInstance<P>>)
        requires
            self.wf(),
        ensures
            match r {
                Some(instance) => self.lookup(name@) == Some(*instance),
                None => self.lookup(name@) is None,
            },
    {
        match self.position(name) {
            Some(i) => Some(&self.entries[i].instance),
            None => None,
        }
    }

    /// Exclusive access to the instance registered under `name`, or nothing.
    /// Whatever the caller does to the instance is what the registry holds
    /// afterwards; no other entry changes.
    pub fn get_mut(&mut self, name: &str) -> (r: Option<&mut PluginInstance<P>>)
        requires
            old(self).wf(),
        ensures
            final(self).names() == old(self).names(),
            match r {
                Some(instance) => {
                    &&& old(self).lookup(name@) == Some(*instance)
                    &&& final(self).instances() == old(self).instances().update(
                        old(self).names().index_of(name@),
                        *final(instance),
                    )
                },
                None => {
                    &&& old(self).lookup(name@) is None
                    &&& final(self).instances() == old(self).instances()
                },
            },
    {
        match self.position(name) {
            Some(i) => {
                let entry = &mut self.entries[i];
                Some(&mut entry.instance)
            },
            None => None,
        }
    }

    /// Registers `plugin` under `name`. The plugin is initialized before it
    /// becomes visible, so no lookup ever finds an entry that this call left
    /// uninitialized.
    pub fn register(&mut self, name: String, plugin: P) -> (r: Result<(), PluginError>)
        requires
            old(self).wf(),
        ensures
            final(self).wf(),
            Self::register_post(*old(self), name@, plugin, *final(self), outcome_view(r)),
            r is Ok ==> final(self).lookup(name@) is Some && final(self).lookup(
                name@,
            ).unwrap().initialized(),
            old(self).all_initialized() ==> final(self).all_initialized(),
    {
        if self.position(name.as_str()).is_some() {
            return Err(PluginError::AlreadyExists(name));
        }
        let mut instance = PluginInstance::new(plugin);
        match instance.initialize() {
            Ok(()) => {
                self.entries.push(Entry { name, instance });
                proof {
                    let pre = *old(self);
                    assert(self.names() =~= pre.names().push(name@));
                    assert(self.instances().drop_last() =~= pre.instances());
                    assert(self.instances().last() == instance);
                    if pre.all_initialized() {
                        assert forall|i: int| 0 <= i < self.instances().len() implies (
                        #[trigger] self.instances()[i]).initialized() by {
                            if i < pre.instances().len() {
                                assert(self.instances()[i] == pre.instances()[i]);
                            }
                        }
                    }
                    assert forall|i: int, j: int|
                        0 <= i < self.names().len() && 0 <= j < self.names().len() && i
                            != j implies self.names()[i] != self.names()[j] by {
                        if i < pre.names().len() && j < pre.names().len() {
                            assert(pre.names()[i] != pre.names()[j]);
                        } else if i < pre.names().len() {
                            assert(pre.names().contains(pre.names()[i]));
                        } else {
                            assert(pre.names().contains(pre.names()[j]));
                        }
                    }
                    lemma_registered_is_initialized(pre, name@, plugin, *self, Ok(()));
                }
                Ok(())
            },
            Err(e) => {
                assert(plugin.initialize_allows(
                    &instance.inner(),
                    outcome_view(Err::<(), PluginError>(e)),
                ));
                Err(e)
            },
        }
    }

    /// Registers `plugin` under the name that its own configuration gives.
    pub fn register_plugin(&mut self, plugin: P) -> (r: Result<(), PluginError>)
        requires
            old(self).wf(),
        ensures
            final(self).wf(),
            Self::register_post(
                *old(self),
                plugin.config().name,
                plugin,
                *final(self),
                outcome_view(r),
            ),
            r is Ok ==> final(self).lookup(plugin.config().name) is Some && final(self).lookup(
                plugin.config().name,
            ).unwrap().initialized(),
            old(self).all_initialized() ==> final(self).all_initialized(),
    {
        let name = plugin.get_config().name.clone();
        self.register(name, plugin)
    }

    /// The plugin registered under `name`, or nothing.
    pub fn get_plugin(&self, name: &str) -> (r: Option<&P>)
        requires
            self.wf(),
        ensures
            match r {
                Some(plugin) => self.lookup(name@) is Some && self.lookup(name@).unwrap().inner()
                    == *plugin,
                None => self.lookup(name@) is None,
            },
    {
        match self.get(name) {
            Some(instance) => Some(instance.plugin()),
            None => None,
        }
    }

    /// The metadata of every registered plugin, oldest registration first.
    pub fn list_plugins(&self) -> (r: Vec<PluginMetadata>)
        ensures
            r@.len() == self.instances().len(),
            forall|i: int|
                0 <= i < r@.len() ==> (#[trigger] r@[i])@ == self.instances()[i].inner().metadata_view(),
    {
        let mut out: Vec<PluginMetadata> = Vec::new();
        let mut i: usize = 0;
        while i < self.entries.len()
            invariant
                i <= self.entries@.len(),
                out@.len() == i,
                forall|j: int|
                    0 <= j < i ==> (#[trigger] out@[j])@ == self.instances()[j].inner().metadata_view(),
            decreases self.entries@.len() - i,
        {
            let m = self.entries[i].instance.plugin().metadata();
            out.push(m);
            i += 1;
        }
        out
    }

    /// The registered names, oldest registration first.
    pub fn list_names(&self) -> (r: Vec<String>)
        ensures
            r@.len() == self.names().len(),
            forall|i: int| 0 <= i < r@.len() ==> (#[trigger] r@[i])@ == self.names()[i],
    {
        let mut out: Vec<String> = Vec::new();
        let mut i: usize = 0;
        while i < self.entries.len()
            invariant
                i <= self.entries@.len(),
                out@.len() == i,
                forall|j: int| 0 <= j < i ==> (#[trigger] out@[j])@ == self.names()[j],
            decreases self.entries@.len() - i,
        {
            out.push(self.entries[i].name.clone());
            i += 1;
        }
        out
    }

    /// Exclusive access to the plugin registered under `name`, or nothing.
    /// The entry keeps its flag; no other entry changes.
    pub fn get_plugin_mut(&mut self, name: &str) -> (r: Option<&mut P>)
        requires
            old(self).wf(),
        ensures
            final(self).names() == old(self).names(),
            match r {
                Some(plugin) => {
                    &&& old(self).lookup(name@) is Some
                    &&& old(self).lookup(name@).unwrap().inner() == *plugin
                    &&& final(self).instances() == old(self).instances().update(
                        old(self).names().index_of(name@),
                        PluginInstance::of(
                            *final(plugin),
                            old(self).lookup(name@).unwrap().initialized(),
                        ),
                    )
                },
                None => {
                    &&& old(self).lookup(name@) is None
                    &&& final(self).instances() == old(self).instances()
                },
            },
    {
        match self.get_mut(name) {
            Some(instance) => Some(instance.plugin_mut()),
            None => None,
        }
    }

    /// The registered instances whose configuration carries `plugin_type`,
    /// oldest registration first.
    pub fn get_plugins_by_type(&self, plugin_type: PluginType) -> (r: Vec<&PluginInstance<P>>)
        ensures
            Seq::new(r@.len(), |i: int| *r@[i]) == self.of_type(plugin_type@),
    {
        let mut out: Vec<&PluginInstance<P>> = Vec::new();
        let ghost pred = |instance: PluginInstance<P>|
            instance.inner().config().plugin_type == plugin_type@;
        let mut i: usize = 0;
        proof {
            reveal(Seq::filter);
            assert(self.instances().take(0) =~= Seq::<PluginInstance<P>>::empty());
            assert(Seq::new(out@.len(), |k: int| *out@[k]) =~= self.instances().take(0).filter(pred));
        }
        while i < self.entries.len()
            invariant
                i <= self.entries@.len(),
                pred == |instance: PluginInstance<P>|
                    instance.inner().config().plugin_type == plugin_type@,
                Seq::new(out@.len(), |k: int| *out@[k]) == self.instances().take(i as int).filter(
                    pred,
                ),
            decreases self.entries@.len() - i,
        {
            let ghost before = Seq::new(out@.len(), |k: int| *out@[k]);
            let instance = &self.entries[i].instance;
            let keep = instance.plugin().get_config().plugin_type.same_as(&plugin_type);
            if keep {
                out.push(instance);
            }
            proof {
                let prefix = self.instances().take(i as int);
                let next = self.instances().take(i + 1);
                assert(next =~= prefix.push(*instance));
                assert(next.drop_last() =~= prefix);
                reveal(Seq::filter);
                if keep {
                    assert(Seq::new(out@.len(), |k: int| *out@[k]) =~= before.push(*instance));
                } else {
                    assert(Seq::new(out@.len(), |k: int| *out@[k]) =~= before);
                }
            }
            i += 1;
        }
        proof {
            assert(self.instances().take(i as int) =~= self.instances());
        }
        out
    }

    /// Runs the lifecycle wrapper's `initialize` on the i-th entry.
    fn initialize_at(&mut self, i: usize) -> (r: Result<(), PluginError>)
        requires
            i < old(self).instances().len(),
        ensures
            final(self).names() == old(self).names(),
            final(self).instances() == old(self).instances().update(
                i as int,
                final(self).instances()[i as int],
            ),
            PluginInstance::initialize_post(
                old(self).instances()[i as int],
                final(self).instances()[i as int],
                outcome_view(r),
            ),
    {
        let r = self.entries[i].instance.initialize();
        assert(self.instances() =~= old(self).instances().update(
            i as int,
            self.instances()[i as int],
        ));
        assert(self.names() =~= old(self).names());
        r
    }

    /// Runs the lifecycle wrapper's `cleanup` on the i-th entry.
    fn cleanup_at(&mut self, i: usize) -> (r: Result<(), PluginError>)
        requires
            i < old(self).instances().len(),
        ensures
            final(self).names() == old(self).names(),
            final(self).instances() == old(self).instances().update(
                i as int,
                final(self).instances()[i as int],
            ),
            PluginInstance::cleanup_post(
                old(self).instances()[i as int],
                final(self).instances()[i as int],
                outcome_view(r),
            ),
    {
        let r = self.entries[i].instance.cleanup();
        assert(self.instances() =~= old(self).instances().update(
            i as int,
            self.instances()[i as int],
        ));
        assert(self.names() =~= old(self).names());
        r
    }

    /// Initializes every entry that is not initialized yet, in registration
    /// order, and stops at the first failure.
    pub fn initialize(&mut self) -> (r: Result<(), PluginError>)
        requires
            old(self).wf(),
        ensures
            final(self).wf(),
            Self::initialize_all_post(*old(self), *final(self), outcome_view(r)),
            r is Ok ==> final(self).all_initialized(),
    {
        let ghost pre = *self;
        let n = self.entries.len();
        let mut i: usize = 0;
        while i < n
            invariant
                i <= n,
                pre == *old(self),
                n == pre.instances().len(),
                self.wf(),
                self.names() == pre.names(),
                self.instances().len() == pre.instances().len(),
                forall|j: int|
                    0 <= j < i ==> PluginInstance::initialize_post(
                        pre.instances()[j],
                        #[trigger] self.instances()[j],
                        Ok(()),
                    ),
                forall|j: int| i <= j < n ==> #[trigger] self.instances()[j] == pre.instances()[j],
            decreases n - i,
        {
            let outcome = self.initialize_at(i);
            assert(PluginInstance::initialize_post(
                pre.instances()[i as int],
                self.instances()[i as int],
                outcome_view(outcome),
            ));
            match outcome {
                Ok(()) => {},
                Err(e) => {
                    assert(Self::initialized_up_to(pre, *self, i as int));
                    assert(outcome_view(outcome) == outcome_view(Err::<(), PluginError>(e)));
                    return Err(e);
                },
            }
            i += 1;
        }
        Ok(())
    }

    /// Cleans up every entry, in registration order. A failure does not
    /// keep the later entries from their cleanup; the failures are handed
    /// back, each with the name of its entry.
    pub fn cleanup_all(&mut self) -> (r: Vec<(String, PluginError)>)
        requires
            old(self).wf(),
        ensures
            final(self).wf(),
            exists|outcomes: Seq<Result<(), PluginErrorView>>|
                {
                    &&& #[trigger] Self::cleanup_all_post(*old(self), *final(self), outcomes)
                    &&& failures_view(r@) == failures_of(old(self).names(), outcomes)
                },
    {
        let ghost pre = *self;
        let ghost mut outcomes: Seq<Result<(), PluginErrorView>> = Seq::empty();
        let mut failures: Vec<(String, PluginError)> = Vec::new();
        let n = self.entries.len();
        let mut i: usize = 0;
        proof {
            assert(pre.names().take(0) =~= Seq::<Seq<char>>::empty());
            assert(failures_view(failures@) =~= failures_of(pre.names().take(0), outcomes));
        }
        while i < n
            invariant
                i <= n,
                n == pre.instances().len(),
                n == pre.names().len(),
                self.wf(),
                self.names() == pre.names(),
                self.instances().len() == pre.instances().len(),
                outcomes.len() == i,
                forall|j: int|
                    0 <= j < i ==> PluginInstance::cleanup_post(
                        pre.instances()[j],
                        self.instances()[j],
                        #[trigger] outcomes[j],
                    ),
                forall|j: int| i <= j < n ==> #[trigger] self.instances()[j] == pre.instances()[j],
                failures_view(failures@) == failures_of(pre.names().take(i as int), outcomes),
            decreases n - i,
        {
            let ghost before = failures_view(failures@);
            let ghost earlier = outcomes;
            let outcome = self.cleanup_at(i);
            proof {
                outcomes = outcomes.push(outcome_view(outcome));
                assert(outcomes.drop_last() =~= earlier);
                assert(pre.names().take(i + 1).drop_last() =~= pre.names().take(i as int));
                assert(pre.names().take(i + 1).last() == pre.names()[i as int]);
            }
            match outcome {
                Ok(()) => {},
                Err(e) => {
                    let name = self.entries[i].name.clone();
                    assert(name@ == pre.names()[i as int]);
                    failures.push((name, e));
                    assert(failures_view(failures@) =~= before.push((name@, e@)));
                },
            }
            i += 1;
        }
        proof {
            assert(pre.names().take(i as int) =~= pre.names());
            assert(Self::cleanup_all_post(pre, *self, outcomes));
        }
        failures
    }
}

impl<P: Plugin> PluginRegistry<P> {
    /// What [`PluginRegistry::unregister`] establishes. An unknown name
    /// changes nothing. Otherwise the entry leaves the registry, the others
    /// keep their order, and the instance that leaves is torn down: where it
    /// was initialized its plugin's `cleanup` ran once, and `failure` is
    /// what that cleanup reported.
    pub open spec fn unregister_post(
        pre: Self,
        name: Seq<char>,
        post: Self,
        found: bool,
        failure: Option<PluginError>,
    ) -> bool {
        if !pre.names().contains(name) {
            post == pre && !found && failure is None
        } else {
            let at = pre.names().index_of(name);
            &&& found
            &&& post.names() == pre.names().remove(at)
            &&& post.instances() == pre.instances().remove(at)
            &&& !pre.instances()[at].initialized() ==> failure is None
            &&& pre.instances()[at].initialized() ==> exists|after: P| #[trigger]
                pre.instances()[at].inner().cleanup_allows(
                    &after,
                    PluginInstance::<P>::teardown_outcome(failure),
                )
        }
    }

    /// Takes the entry `name` out of the registry and tears its instance
    /// down. The result says whether there was such an entry, and hands
    /// back the failure of the cleanup, if there was one, for the log.
    pub fn unregister(&mut self, name: &str) -> (r: (bool, Option<PluginError>))
        requires
            old(self).wf(),
        ensures
            final(self).wf(),
            Self::unregister_post(*old(self), name@, *final(self), r.0, r.1),
            old(self).all_initialized() ==> final(self).all_initialized(),
    {
        match self.position(name) {
            None => (false, None),
            Some(i) => {
                let entry = self.entries.remove(i);
                proof {
                    let pre = *old(self);
                    assert(self.names() =~= pre.names().remove(i as int));
                    assert(self.instances() =~= pre.instances().remove(i as int));
                    assert(entry.instance == pre.instances()[i as int]);
                    assert forall|a: int, b: int|
                        0 <= a < self.names().len() && 0 <= b < self.names().len() && a
                            != b implies self.names()[a] != self.names()[b] by {
                        let a0 = if a < i { a } else { a + 1 };
                        let b0 = if b < i { b } else { b + 1 };
                        assert(self.names()[a] == pre.names()[a0]);
                        assert(self.names()[b] == pre.names()[b0]);
                    }
                    if pre.all_initialized() {
                        assert forall|k: int| 0 <= k < self.instances().len() implies (
                        #[trigger] self.instances()[k]).initialized() by {
                            let k0 = if k < i { k } else { k + 1 };
                            assert(self.instances()[k] == pre.instances()[k0]);
                        }
                    }
                }
                let failure = entry.instance.teardown();
                (true, failure)
            },
        }
    }

    /// Cleans up every entry as [`PluginRegistry::cleanup_all`] does, and
    /// reports the first failure, if any, as the outcome.
    pub fn cleanup(&mut self) -> (r: Result<(), PluginError>)
        requires
            old(self).wf(),
        ensures
            final(self).wf(),
            exists|outcomes: Seq<Result<(), PluginErrorView>>|
                {
                    &&& #[trigger] Self::cleanup_all_post(*old(self), *final(self), outcomes)
                    &&& outcome_view(r) == first_failure(failures_of(old(self).names(), outcomes))
                },
    {
        let mut failures = self.cleanup_all();
        let ghost all = failures_view(failures@);
        if failures.len() == 0 {
            Ok(())
        } else {
            let first = failures.swap_remove(0);
            assert(first.1@ == all[0].1);
            Err(first.1)
        }
    }
}

/// Right after a successful registration, a lookup of the name finds the
/// new instance, and it is initialized.
pub proof fn lemma_registered_is_initialized<P: Plugin>(
    pre: PluginRegistry<P>,
    name: Seq<char>,
    plugin: P,
    post: PluginRegistry<P>,
    outcome: Result<(), PluginErrorView>,
)
    requires
        pre.wf(),
        post.wf(),
        PluginRegistry::register_post(pre, name, plugin, post, outcome),
        outcome is Ok,
    ensures
        post.lookup(name) is Some,
        post.lookup(name).unwrap().initialized(),
        post.lookup(name).unwrap() == post.instances().last(),
{
    let last = post.names().len() - 1;
    assert(post.names()[last] == name);
    assert(post.names().contains(name));
}

/// A successful registration leaves every earlier entry as it was: each
/// name that was registered before still leads to the same instance.
pub proof fn lemma_register_keeps_others<P: Plugin>(
    pre: PluginRegistry<P>,
    name: Seq<char>,
    plugin: P,
    post: PluginRegistry<P>,
    outcome: Result<(), PluginErrorView>,
    other: Seq<char>,
)
    requires
        pre.wf(),
        post.wf(),
        PluginRegistry::register_post(pre, name, plugin, post, outcome),
        other != name,
    ensures
        post.lookup(other) == pre.lookup(other),
{
    if outcome is Ok && !pre.names().contains(name) {
        if pre.names().contains(other) {
            let k = pre.names().index_of(other);
            assert(post.names()[k] == other);
            assert(post.names().contains(other));
            assert(post.instances().drop_last()[k] == post.instances()[k]);
        } else {
            if post.names().contains(other) {
                let k = post.names().index_of(other);
                assert(k < pre.names().len());
                assert(pre.names()[k] == other);
            }
        }
    }
}

/// Registering under a name that a successful registration has just taken
/// fails with `AlreadyExists` for that name and leaves the registry, and
/// with it the first registration, untouched.
pub proof fn lemma_register_twice<P: Plugin>(
    pre: PluginRegistry<P>,
    name: Seq<char>,
    first_plugin: P,
    middle: PluginRegistry<P>,
    first: Result<(), PluginErrorView>,
    second_plugin: P,
    post: PluginRegistry<P>,
    second: Result<(), PluginErrorView>,
)
    requires
        pre.wf(),
        middle.wf(),
        PluginRegistry::register_post(pre, name, first_plugin, middle, first),
        first is Ok,
        PluginRegistry::register_post(middle, name, second_plugin, post, second),
    ensures
        second == Err::<(), PluginErrorView>(PluginErrorView::AlreadyExists(name)),
        post == middle,
        post.lookup(name) == middle.lookup(name),
        post.lookup(name) is Some,
        post.lookup(name).unwrap().initialized(),
{
    lemma_registered_is_initialized(pre, name, first_plugin, middle, first);
}

/// After an entry has been taken out, a lookup of its name finds nothing,
/// and every other name leads to the instance it led to before.
pub proof fn lemma_unregistered_is_gone<P: Plugin>(
    pre: PluginRegistry<P>,
    name: Seq<char>,
    post: PluginRegistry<P>,
    found: bool,
    failure: Option<PluginError>,
    other: Seq<char>,
)
    requires
        pre.wf(),
        post.wf(),
        PluginRegistry::unregister_post(pre, name, post, found, failure),
    ensures
        post.lookup(name) is None,
        other != name ==> post.lookup(other) == pre.lookup(other),
{
    if pre.names().contains(name) {
        let at = pre.names().index_of(name);
        if post.names().contains(name) {
            let k = post.names().index_of(name);
            let k0 = if k < at { k } else { k + 1 };
            assert(post.names()[k] == pre.names()[k0]);
        }
        if other != name {
            if pre.names().contains(other) {
                let m = pre.names().index_of(other);
                let m1 = if m < at { m } else { m - 1 };
                assert(post.names()[m1] == other);
                assert(post.names().contains(other));
                let m2 = post.names().index_of(other);
                assert(post.instances()[m1] == pre.instances()[m]);
            } else if post.names().contains(other) {
                let k = post.names().index_of(other);
                let k0 = if k < at { k } else { k + 1 };
                assert(post.names()[k] == pre.names()[k0]);
            }
        }
    }
}

} // verus!
