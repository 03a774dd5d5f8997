//! Discovery of plugin libraries: which files of a directory are loaded,
//! and what becomes of each attempt.

use vstd::prelude::*;
use vstd::string::StringExecFns;
use crate::plugin_api::base::{Plugin, PluginError, PluginErrorView};
use crate::plugin_api::paths::{extension, extension_of};
use crate::plugins::PluginInstance;

verus! {

/// The operating system whose naming of dynamic libraries applies.
#[derive(Clone, Copy, Debug, PartialEq, Eq, Structural)]
pub enum Platform {
    Windows,
    Linux,
    MacOs,
}

/// One entry of a directory listing: its path, and whether it is a
/// regular file.
#[derive(Debug)]
pub struct DirEntry {
    pub path: String,
    pub is_file: bool,
}

/// A library that could not be loaded, with the reason.
#[derive(Debug)]
pub struct SkippedLibrary {
    pub path: String,
    pub error: PluginError,
}

/// What a discovery found: the plugins that loaded, each wrapped and not
/// yet initialized, and the libraries that were skipped.
pub struct Discovery<P: Plugin> {
    pub plugins: Vec<PluginInstance<P>>,
    pub skipped: Vec<SkippedLibrary>,
}

/// One attempt to load a library: the path, and what the loader returned.
pub type Attempt<P> = (String, Result<P, PluginError>);

/// The extension of dynamic libraries on `platform`.
pub open spec fn library_extension(platform: Platform) -> Seq<char> {
    match platform {
        Platform::Windows => "dll"@,
        Platform::Linux => "so"@,
        Platform::MacOs => "dylib"@,
    }
}

/// Whether `path` names a dynamic library of `platform`.
pub open spec fn is_library(path: Seq<char>, platform: Platform) -> bool {
    extension_of(path) == Some(library_extension(platform))
}

/// The paths of `listing` that are loaded: the regular files with the
/// platform's library extension, in the order of the listing.
pub open spec fn eligible(listing: Seq<DirEntry>, platform: Platform) -> Seq<Seq<char>>
    decreases listing.len(),
{
    if listing.len() == 0 {
        Seq::empty()
    } else {
        let earlier = eligible(listing.drop_last(), platform);
        if listing.last().is_file && is_library(listing.last().path@, platform) {
            earlier.push(listing.last().path@)
        } else {
            earlier
        }
    }
}

/// The plugins of the attempts that succeeded, each wrapped and not
/// initialized, in the order of the attempts.
pub open spec fn loaded_of<P: Plugin>(attempts: Seq<Attempt<P>>) -> Seq<PluginInstance<P>>
    decreases attempts.len(),
{
    if attempts.len() == 0 {
        Seq::empty()
    } else {
        let earlier = loaded_of(attempts.drop_last());
        match attempts.last().1 {
            Ok(plugin) => earlier.push(PluginInstance::of(plugin, false)),
            Err(_) => earlier,
        }
    }
}

/// The attempts that failed, each as path and error, in the order of the
/// attempts.
pub open spec fn skipped_of<P: Plugin>(attempts: Seq<Attempt<P>>) -> Seq<
    (Seq<char>, PluginErrorView),
>
    decreases attempts.len(),
{
    if attempts.len() == 0 {
        Seq::empty()
    } else {
        let earlier = skipped_of(attempts.drop_last());
        match attempts.last().1 {
            Ok(_) => earlier,
            Err(e) => earlier.push((attempts.last().0@, e@)),
        }
    }
}

/// The views of a list of skipped libraries.
pub open spec fn skipped_view(skipped: Seq<SkippedLibrary>) -> Seq<(Seq<char>, PluginErrorView)> {
    Seq::new(skipped.len(), |i: int| (skipped[i].path@, skipped[i].error@))
}

/// The views of a list of paths.
pub open spec fn names_view(paths: Seq<String>) -> Seq<Seq<char>> {
    Seq::new(paths.len(), |i: int| paths[i]@)
}

/// Every wrapper among the loaded plugins is uninitialized.
pub proof fn lemma_loaded_are_fresh<P: Plugin>(attempts: Seq<Attempt<P>>, i: int)
    requires
        0 <= i < loaded_of(attempts).len(),
    ensures
        !loaded_of(attempts)[i].initialized(),
    decreases attempts.len(),
{
    if attempts.len() > 0 {
        let earlier = loaded_of(attempts.drop_last());
        if i < earlier.len() {
            lemma_loaded_are_fresh(attempts.drop_last(), i);
        } else {
            match attempts.last().1 {
                Ok(plugin) => {
                    PluginInstance::lemma_of(plugin, false);
                },
                Err(_) => {},
            }
        }
    }
}

/// Every attempt is either a loaded plugin or a skipped library.
pub proof fn lemma_every_attempt_counted<P: Plugin>(attempts: Seq<Attempt<P>>)
    ensures
        loaded_of(attempts).len() + skipped_of(attempts).len() == attempts.len(),
    decreases attempts.len(),
{
    if attempts.len() > 0 {
        lemma_every_attempt_counted(attempts.drop_last());
    }
}

/// Loads plugins from the libraries of a directory.
pub struct PluginLoader;

impl PluginLoader {
    /// Whether `path` names a dynamic library of `platform`.
    pub fn is_plugin_library(path: &str, platform: Platform) -> (r: bool)
        ensures
            r == is_library(path@, platform),
    {
        match extension(path) {
            None => false,
            Some(ext) => {
                let expected = match platform {
                    Platform::Windows => String::from_str("dll"),
                    Platform::Linux => String::from_str("so"),
                    Platform::MacOs => String::from_str("dylib"),
                };
                ext == expected
            },
        }
    }

    /// The paths of `listing` that a discovery tries to load.
    pub fn candidates(listing: &Vec<DirEntry>, platform: Platform) -> (r: Vec<String>)
        ensures
            names_view(r@) == eligible(listing@, platform),
    {
        let mut out: Vec<String> = Vec::new();
        let mut i: usize = 0;
        assert(listing@.take(0) =~= Seq::<DirEntry>::empty());
        assert(names_view(out@) =~= Seq::<Seq<char>>::empty());
        while i < listing.len()
            invariant
                i <= listing@.len(),
                names_view(out@) == eligible(listing@.take(i as int), platform),
            decreases listing@.len() - i,
        {
            let ghost before = names_view(out@);
            let entry = &listing[i];
            proof {
                assert(listing@.take(i + 1).drop_last() =~= listing@.take(i as int));
                assert(listing@.take(i + 1).last() == *entry);
            }
            if entry.is_file && Self::is_plugin_library(entry.path.as_str(), platform) {
                out.push(entry.path.clone());
                assert(names_view(out@) =~= before.push(entry.path@));
            }
            i += 1;
        }
        assert(listing@.take(i as int) =~= listing@);
        out
    }

    /// Discovers the plugins of a directory. `listing` is what the
    /// directory holds, or nothing where the directory does not exist;
    /// `load` loads one library.
    ///
    /// A directory that does not exist yields nothing. Otherwise `load` is
    /// tried once on each eligible path, in the order of the listing; a
    /// library that fails to load is skipped with its error and the
    /// discovery goes on.
    pub fn discover_plugins<P: Plugin, F: Fn(String) -> Result<P, PluginError>>(
        listing: Option<&Vec<DirEntry>>,
        platform: Platform,
        load: F,
    ) -> (r: Discovery<P>)
        requires
            forall|path: String| call_requires(load, (path,)),
        ensures
            forall|i: int| 0 <= i < r.plugins@.len() ==> !(#[trigger] r.plugins@[i]).initialized(),
            listing is None ==> r.plugins@.len() == 0 && r.skipped@.len() == 0,
            listing is Some ==> exists|attempts: Seq<Attempt<P>>|
                {
                    &&& #[trigger] attempts.len() == eligible(listing.unwrap()@, platform).len()
                    &&& forall|i: int|
                        0 <= i < attempts.len() ==> {
                            &&& (#[trigger] attempts[i]).0@ == eligible(
                                listing.unwrap()@,
                                platform,
                            )[i]
                            &&& call_ensures(load, (attempts[i].0,), attempts[i].1)
                        }
                    &&& r.plugins@ == loaded_of(attempts)
                    &&& skipped_view(r.skipped@) == skipped_of(attempts)
                },
    {
        let mut plugins: Vec<PluginInstance<P>> = Vec::new();
        let mut skipped: Vec<SkippedLibrary> = Vec::new();
        let entries = match listing {
            None => {
                return Discovery { plugins, skipped };
            },
            Some(entries) => entries,
        };
        let paths = Self::candidates(entries, platform);
        let ghost wanted = eligible(entries@, platform);
        let ghost mut attempts: Seq<Attempt<P>> = Seq::empty();
        let mut i: usize = 0;
        assert(plugins@ =~= loaded_of(attempts));
        assert(skipped_view(skipped@) =~= skipped_of(attempts));
        while i < paths.len()
            invariant
                i <= paths@.len(),
                names_view(paths@) == wanted,
                forall|path: String| call_requires(load, (path,)),
                attempts.len() == i,
                forall|k: int|
                    0 <= k < i ==> {
                        &&& (#[trigger] attempts[k]).0@ == wanted[k]
                        &&& call_ensures(load, (attempts[k].0,), attempts[k].1)
                    },
                plugins@ == loaded_of(attempts),
                skipped_view(skipped@) == skipped_of(attempts),
                forall|k: int| 0 <= k < plugins@.len() ==> !(#[trigger] plugins@[k]).initialized(),
            decreases paths@.len() - i,
        {
            let ghost before = skipped_view(skipped@);
            let ghost earlier = attempts;
            let path = paths[i].clone();
            assert(path@ == names_view(paths@)[i as int]);
            let outcome = load(path);
            proof {
                attempts = attempts.push((path, outcome));
                assert(attempts.drop_last() =~= earlier);
            }
            match outcome {
                Ok(plugin) => {
                    plugins.push(PluginInstance::new(plugin));
                },
                Err(error) => {
                    let library = SkippedLibrary { path: paths[i].clone(), error };
                    skipped.push(library);
                    assert(skipped_view(skipped@) =~= before.push((path@, error@)));
                },
            }
            i += 1;
        }
        proof {
            assert(attempts.len() == wanted.len());
        }
        Discovery { plugins, skipped }
    }
}

} // verus!
