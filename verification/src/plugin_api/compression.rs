//! The compression capability: what a plugin that packs and unpacks
//! archives offers beyond the base contract.

use vstd::prelude::*;
use crate::plugin_api::base::{outcome_view, Plugin, PluginError, PluginErrorView};
use crate::plugin_api::files::{FileStore, Tree};
use crate::plugin_api::types::CompressionOptions;

verus! {

/// The views of a list of paths.
pub open spec fn paths_view(paths: Seq<String>) -> Seq<Seq<char>> {
    Seq::new(paths.len(), |i: int| paths[i]@)
}

/// A plugin that packs files into an archive and unpacks an archive.
///
/// Both methods work on a file tree that the host has loaded. For each
/// implementation `compress_allows` and `decompress_allows` say which tree
/// and outcome one call may leave behind; an implementation that does not
/// describe itself is taken to allow every outcome.
pub trait CompressionPlugin: Plugin {
    /// Whether `compress` on `before` may end in `after` with `outcome`.
    open spec fn compress_allows(
        &self,
        before: Tree,
        input_files: Seq<Seq<char>>,
        output_file: Seq<char>,
        options: CompressionOptions,
        after: Tree,
        outcome: Result<(), PluginErrorView>,
    ) -> bool {
        true
    }

    /// Whether `decompress` on `before` may end in `after` with `outcome`.
    open spec fn decompress_allows(
        &self,
        before: Tree,
        archive_file: Seq<char>,
        output_dir: Seq<char>,
        overwrite: bool,
        after: Tree,
        outcome: Result<(), PluginErrorView>,
    ) -> bool {
        true
    }

    /// Packs `input_files`, each a file or a directory with all below it,
    /// into the archive `output_file`.
    fn compress(
        &self,
        store: &mut FileStore,
        input_files: &Vec<String>,
        output_file: &String,
        options: &CompressionOptions,
    ) -> (r: Result<(), PluginError>)
        requires
            old(store).wf(),
        ensures
            final(store).wf(),
            self.compress_allows(
                old(store)@,
                paths_view(input_files@),
                output_file@,
                *options,
                final(store)@,
                outcome_view(r),
            ),
    ;

    /// Unpacks the archive `archive_file` below `output_dir`.
    fn decompress(
        &self,
        store: &mut FileStore,
        archive_file: &String,
        output_dir: &String,
        overwrite: bool,
    ) -> (r: Result<(), PluginError>)
        requires
            old(store).wf(),
        ensures
            final(store).wf(),
            self.decompress_allows(
                old(store)@,
                archive_file@,
                output_dir@,
                overwrite,
                final(store)@,
                outcome_view(r),
            ),
    ;
}

} // verus!
