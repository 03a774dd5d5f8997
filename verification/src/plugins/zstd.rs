//! The Zstandard adapter: a single-stream codec, one file in and one file
//! out.

use vstd::prelude::*;
use vstd::string::StringExecFns;
use crate::plugin_api::base::{
    outcome_view,
    Plugin,
    PluginConfig,
    PluginConfigView,
    PluginError,
    PluginErrorView,
};
use crate::plugin_api::compression::{paths_view, CompressionPlugin};
use crate::plugin_api::files::{find, put, FileStore, Node, NodeView, Tree};
use crate::plugin_api::paths::{file_stem, file_stem_of};
use crate::plugin_api::types::{
    CompressionOptions,
    PlatformSupport,
    PluginMetadata,
    PluginMetadataView,
    PluginType,
    PluginTypeView,
};
use crate::plugins::archive::{
    entries_view,
    file_entry,
    unpack_entries,
    unpacked,
    ArchiveEntry,
};

verus! {

/// What `zstd::stream::encode_all` returns for `data` at `level`: the frame,
/// or the text of the codec's error.
pub uninterp spec fn zstd_encoded(data: Seq<u8>, level: i32) -> Result<Seq<u8>, Seq<char>>;

/// What `zstd::stream::decode_all` returns for `data`: the decoded bytes,
/// or the text of the codec's error.
pub uninterp spec fn zstd_decoded(data: Seq<u8>) -> Result<Seq<u8>, Seq<char>>;

/// The view of a codec's result.
pub open spec fn bytes_result_view(r: Result<Vec<u8>, String>) -> Result<Seq<u8>, Seq<char>> {
    match r {
        Ok(bytes) => Ok(bytes@),
        Err(text) => Err(text@),
    }
}

/// Calls `zstd::stream::encode_all` on `data` with `level`. The result is
/// the frame that the codec produced, or its error as text; nothing is
/// claimed of either beyond that the same input gives the same result.
#[verifier::external_body]
fn zstd_encode(data: &Vec<u8>, level: i32) -> (r: Result<Vec<u8>, String>)
    ensures
        bytes_result_view(r) == zstd_encoded(data@, level),
{
    ::zstd::stream::encode_all(data.as_slice(), level).map_err(|e| e.to_string())
}

/// Calls `zstd::stream::decode_all` on `data`. The result is what the
/// codec decoded, or its error as text; nothing is claimed of either
/// beyond that the same input gives the same result.
#[verifier::external_body]
fn zstd_decode(data: &Vec<u8>) -> (r: Result<Vec<u8>, String>)
    ensures
        bytes_result_view(r) == zstd_decoded(data@),
{
    ::zstd::stream::decode_all(data.as_slice()).map_err(|e| e.to_string())
}

/// The level used where the options name none.
pub const DEFAULT_LEVEL: i32 = 3;

/// The level that `options` ask for.
pub open spec fn level_of(options: CompressionOptions) -> i32 {
    match options.level {
        Some(level) => level,
        None => DEFAULT_LEVEL,
    }
}

/// The text of the error for anything but exactly one input file.
pub open spec fn single_file_text() -> Seq<char> {
    "Zstd plugin only supports single file compression"@
}

/// The text of the error for an archive path without a last component.
pub open spec fn archive_name_text() -> Seq<char> {
    "Invalid archive name"@
}

/// The tree and outcome once the codec has answered a compression with
/// `encoded`: the frame becomes the output file, a codec error becomes an
/// `ExecutionError` that keeps the codec's text.
pub open spec fn stored_frame(tree: Tree, output: Seq<char>, encoded: Result<Seq<u8>, Seq<char>>) -> (
    Tree,
    Result<(), PluginErrorView>,
) {
    match encoded {
        Ok(bytes) => (put(tree, output, NodeView::File(bytes)), Ok(())),
        Err(text) => (
            tree,
            Err(PluginErrorView::ExecutionError("Failed to compress data: "@ + text)),
        ),
    }
}

/// The tree and outcome of compressing `inputs` into `output`. Anything
/// but exactly one input, or a directory as the input, is `InvalidInput`; an
/// input that the tree does not hold is `NotFound`.
pub open spec fn zstd_compressed(tree: Tree, inputs: Seq<Seq<char>>, output: Seq<char>, level: i32) -> (
    Tree,
    Result<(), PluginErrorView>,
) {
    if inputs.len() != 1 {
        (tree, Err(PluginErrorView::InvalidInput(single_file_text())))
    } else {
        match find(tree, inputs[0]) {
            None => (tree, Err(PluginErrorView::NotFound(inputs[0]))),
            Some(NodeView::Directory) => (
                tree,
                Err(PluginErrorView::InvalidInput(single_file_text())),
            ),
            Some(NodeView::File(data)) => stored_frame(tree, output, zstd_encoded(data, level)),
        }
    }
}

/// The tree and outcome once the codec has answered a decompression of
/// `archive` with `decoded`: the bytes are unpacked below `dir` as one file
/// named by the archive's stem. A codec error becomes an `ExecutionError`
/// that keeps the codec's text; an archive path without a last component is
/// `InvalidInput`.
pub open spec fn stored_plain(
    tree: Tree,
    archive: Seq<char>,
    dir: Seq<char>,
    overwrite: bool,
    decoded: Result<Seq<u8>, Seq<char>>,
) -> (Tree, Result<(), PluginErrorView>) {
    match decoded {
        Err(text) => (
            tree,
            Err(PluginErrorView::ExecutionError("Failed to decompress data: "@ + text)),
        ),
        Ok(bytes) => match file_stem_of(archive) {
            None => (tree, Err(PluginErrorView::InvalidInput(archive_name_text()))),
            Some(stem) => unpacked(tree, seq![file_entry(stem, bytes)], dir, overwrite),
        },
    }
}

/// The tree and outcome of decompressing `archive` below `dir`. An archive
/// that is not a file of the tree is `NotFound`.
pub open spec fn zstd_decompressed(tree: Tree, archive: Seq<char>, dir: Seq<char>, overwrite: bool) -> (
    Tree,
    Result<(), PluginErrorView>,
) {
    match find(tree, archive) {
        Some(NodeView::File(data)) => stored_plain(tree, archive, dir, overwrite, zstd_decoded(data)),
        _ => (tree, Err(PluginErrorView::NotFound(archive))),
    }
}

/// Compressing anything but exactly one input, no input in particular,
/// fails with `InvalidInput` and changes nothing.
pub proof fn lemma_zstd_needs_one_input(
    tree: Tree,
    inputs: Seq<Seq<char>>,
    output: Seq<char>,
    level: i32,
)
    requires
        inputs.len() != 1,
    ensures
        zstd_compressed(tree, inputs, output, level) == (
            tree,
            Err::<(), PluginErrorView>(PluginErrorView::InvalidInput(single_file_text())),
        ),
{
}

/// Decompressing an archive that the tree does not hold fails with
/// `NotFound` for that path and changes nothing.
pub proof fn lemma_zstd_missing_archive(tree: Tree, archive: Seq<char>, dir: Seq<char>, overwrite: bool)
    requires
        find(tree, archive) is None,
    ensures
        zstd_decompressed(tree, archive, dir, overwrite) == (
            tree,
            Err::<(), PluginErrorView>(PluginErrorView::NotFound(archive)),
        ),
{
}

/// The Zstandard plugin.
#[derive(Debug)]
pub struct ZstdPlugin {
    config: PluginConfig,
    metadata: PluginMetadata,
}

impl ZstdPlugin {
    /// The configuration of every Zstandard plugin.
    pub open spec fn fixed_config() -> PluginConfigView {
        PluginConfigView {
            name: "zstd"@,
            description: "Zstandard compression plugin"@,
            version: "1.0.0"@,
            plugin_type: PluginTypeView::Compression,
        }
    }

    /// The metadata of every Zstandard plugin.
    pub open spec fn fixed_metadata() -> PluginMetadataView {
        PluginMetadataView {
            name: "Zstandard"@,
            version: "1.0.0"@,
            author: "Smart Transfer Team"@,
            description: "High-performance compression using Zstandard algorithm"@,
            plugin_type: PluginTypeView::Compression,
            platform_support: PlatformSupport { windows: true, linux: true, macos: true },
        }
    }

    /// A plugin with the fixed configuration and metadata.
    pub fn new() -> (r: Self)
        ensures
            r.config() == Self::fixed_config(),
            r.metadata_view() == Self::fixed_metadata(),
    {
        ZstdPlugin {
            config: PluginConfig {
                name: String::from_str("zstd"),
                description: String::from_str("Zstandard compression plugin"),
                version: String::from_str("1.0.0"),
                plugin_type: PluginType::Compression,
            },
            metadata: PluginMetadata {
                name: String::from_str("Zstandard"),
                version: String::from_str("1.0.0"),
                author: String::from_str("Smart Transfer Team"),
                description: String::from_str(
                    "High-performance compression using Zstandard algorithm",
                ),
                plugin_type: PluginType::Compression,
                platform_support: PlatformSupport { windows: true, linux: true, macos: true },
            },
        }
    }

    /// The file extensions of Zstandard archives.
    pub fn supported_extensions(&self) -> (r: Vec<String>)
        ensures
            r@.len() == 2,
            r@[0]@ == "zst"@,
            r@[1]@ == "zstd"@,
    {
        let mut out: Vec<String> = Vec::new();
        out.push(String::from_str("zst"));
        out.push(String::from_str("zstd"));
        out
    }

    /// The extension given to new archives.
    pub fn default_extension(&self) -> (r: String)
        ensures
            r@ == "zst"@,
    {
        String::from_str("zst")
    }

    /// Stores what the codec answered to a compression.
    pub fn store_frame(store: &mut FileStore, output_file: &String, encoded: Result<Vec<u8>, String>) -> (r:
        Result<(), PluginError>)
        requires
            old(store).wf(),
        ensures
            final(store).wf(),
            stored_frame(old(store)@, output_file@, bytes_result_view(encoded)) == (
                final(store)@,
                outcome_view(r),
            ),
    {
        match encoded {
            Ok(bytes) => {
                store.write(output_file.clone(), bytes);
                Ok(())
            },
            Err(text) => Err(
                PluginError::ExecutionError(
                    String::from_str("Failed to compress data: ").concat(text.as_str()),
                ),
            ),
        }
    }

    /// Stores what the codec answered to a decompression of `archive_file`.
    pub fn store_plain(
        store: &mut FileStore,
        archive_file: &String,
        output_dir: &String,
        overwrite: bool,
        decoded: Result<Vec<u8>, String>,
    ) -> (r: Result<(), PluginError>)
        requires
            old(store).wf(),
        ensures
            final(store).wf(),
            stored_plain(
                old(store)@,
                archive_file@,
                output_dir@,
                overwrite,
                bytes_result_view(decoded),
            ) == (final(store)@, outcome_view(r)),
    {
        match decoded {
            Err(text) => Err(
                PluginError::ExecutionError(
                    String::from_str("Failed to decompress data: ").concat(text.as_str()),
                ),
            ),
            Ok(bytes) => match file_stem(archive_file.as_str()) {
                None => Err(PluginError::InvalidInput(String::from_str("Invalid archive name"))),
                Some(stem) => {
                    let mut entries: Vec<ArchiveEntry> = Vec::new();
                    let entry = ArchiveEntry { name: stem, is_dir: false, data: bytes };
                    entries.push(entry);
                    assert(entries_view(entries@) =~= seq![file_entry(stem@, bytes@)]);
                    unpack_entries(store, &entries, output_dir, overwrite)
                },
            },
        }
    }
}

impl Plugin for ZstdPlugin {
    closed spec fn config(&self) -> PluginConfigView {
        self.config@
    }

    closed spec fn metadata_view(&self) -> PluginMetadataView {
        self.metadata@
    }

    /// Initializing does nothing and succeeds.
    open spec fn initialize_allows(&self, after: &Self, outcome: Result<(), PluginErrorView>) -> bool {
        *after == *self && outcome is Ok
    }

    /// Cleaning up does nothing and succeeds.
    open spec fn cleanup_allows(&self, after: &Self, outcome: Result<(), PluginErrorView>) -> bool {
        *after == *self && outcome is Ok
    }

    fn get_config(&self) -> (c: &PluginConfig) {
        &self.config
    }

    fn metadata(&self) -> (m: PluginMetadata) {
        self.metadata.clone()
    }

    fn initialize(&mut self) -> (r: Result<(), PluginError>) {
        Ok(())
    }

    fn cleanup(&mut self) -> (r: Result<(), PluginError>) {
        Ok(())
    }
}

impl CompressionPlugin for ZstdPlugin {
    /// Exactly one input file is encoded at the level of the options, 3
    /// where they name none, and the frame becomes the output file.
    open spec fn compress_allows(
        &self,
        before: Tree,
        input_files: Seq<Seq<char>>,
        output_file: Seq<char>,
        options: CompressionOptions,
        after: Tree,
        outcome: Result<(), PluginErrorView>,
    ) -> bool {
        zstd_compressed(before, input_files, output_file, level_of(options)) == (after, outcome)
    }

    /// The output directory is made and the decoded bytes become the file
    /// named by the archive's stem below it. Collisions: with `overwrite` a
    /// file that exists is replaced; without it, and for a directory in that
    /// place either way, the outcome is `AlreadyExists`.
    open spec fn decompress_allows(
        &self,
        before: Tree,
        archive_file: Seq<char>,
        output_dir: Seq<char>,
        overwrite: bool,
        after: Tree,
        outcome: Result<(), PluginErrorView>,
    ) -> bool {
        zstd_decompressed(before, archive_file, output_dir, overwrite) == (after, outcome)
    }

    fn compress(
        &self,
        store: &mut FileStore,
        input_files: &Vec<String>,
        output_file: &String,
        options: &CompressionOptions,
    ) -> (r: Result<(), PluginError>) {
        if input_files.len() != 1 {
            return Err(
                PluginError::InvalidInput(
                    String::from_str("Zstd plugin only supports single file compression"),
                ),
            );
        }
        let level = match options.level {
            Some(level) => level,
            None => DEFAULT_LEVEL,
        };
        let input = &input_files[0];
        assert(paths_view(input_files@)[0] == input@);
        let encoded = match store.get(input.as_str()) {
            None => {
                return Err(PluginError::NotFound(input.clone()));
            },
            Some(Node::Directory) => {
                return Err(
                    PluginError::InvalidInput(
                        String::from_str("Zstd plugin only supports single file compression"),
                    ),
                );
            },
            Some(Node::File(data)) => zstd_encode(data, level),
        };
        Self::store_frame(store, output_file, encoded)
    }

    fn decompress(
        &self,
        store: &mut FileStore,
        archive_file: &String,
        output_dir: &String,
        overwrite: bool,
    ) -> (r: Result<(), PluginError>) {
        let decoded = match store.get(archive_file.as_str()) {
            Some(Node::File(data)) => zstd_decode(data),
            _ => {
                return Err(PluginError::NotFound(archive_file.clone()));
            },
        };
        Self::store_plain(store, archive_file, output_dir, overwrite, decoded)
    }
}

} // verus!
