//! The 7z adapter: packs files and whole directories into one archive with
//! the `sevenz_rust` crate as the codec, and places the entries of an
//! archive that the host has read.
//!
//! The codec's reader indexes its tables by numbers taken from the archive
//! and can panic on a crafted one. This library does not panic, so it does
//! not call the reader: the host reads the archive, guarded, and hands the
//! entries to [`SevenZipPlugin::decompress_listed`].

use vstd::prelude::*;
use vstd::string::StringExecFns;
use crate::plugin_api::base::{
    outcome_view,
    Plugin,
    PluginConfig,
    PluginConfigView,
    PluginError,
    PluginErrorView,
};
use crate::plugin_api::compression::CompressionPlugin;
use crate::plugin_api::files::{find, FileStore, Node, NodeView, Tree};
use crate::plugin_api::types::{
    CompressionOptions,
    PlatformSupport,
    PluginMetadata,
    PluginMetadataView,
    PluginType,
    PluginTypeView,
};
use crate::plugins::archive::{
    collect_entries,
    entries_view,
    unpack_entries,
    ArchiveEntry,
    ArchiveEntryView,
};
use crate::plugins::zip::{
    done_view,
    members_of,
    packed_view,
    packing_allows,
    store_archive,
    unpacking,
    Member,
};

verus! {

/// A `sevenz_rust::SevenZWriter` that writes to a buffer in memory.
#[verifier::external_body]
pub struct SevenZBuilder {
    inner: ::sevenz_rust::SevenZWriter<std::io::Cursor<Vec<u8>>>,
}

/// The members that have been pushed into a `sevenz_rust::SevenZWriter`,
/// in order, each with its bytes.
pub uninterp spec fn sevenz_written(w: SevenZBuilder) -> Seq<Member>;

/// Whether every call on the `sevenz_rust::SevenZWriter` so far has
/// succeeded.
pub uninterp spec fn sevenz_usable(w: SevenZBuilder) -> bool;

/// What `sevenz_rust::SevenZWriter::new` returns for a cursor over
/// `buffer`: success, or the text of the error.
pub uninterp spec fn sevenz_begun(buffer: Seq<u8>) -> Result<(), Seq<char>>;

/// What `sevenz_rust::SevenZWriter::push_archive_entry` returns for a new
/// file entry `name` with the content `data` on a writer that holds
/// `written`: success, or the text of the error.
pub uninterp spec fn sevenz_pushed(written: Seq<Member>, name: Seq<char>, data: Seq<u8>) -> Result<
    (),
    Seq<char>,
>;

/// What `sevenz_rust::SevenZWriter::finish` returns for a writer that
/// holds `members`: the bytes of the archive, or the text of the error.
pub uninterp spec fn sevenz_image(members: Seq<Member>) -> Result<Seq<u8>, Seq<char>>;

/// Calls `sevenz_rust::SevenZWriter::new` on a cursor over the empty
/// `buffer`: a usable writer without members, or the error as text, as the
/// call returns it for that buffer.
#[verifier::external_body]
fn sevenz_writer_new(buffer: Vec<u8>) -> (r: Result<SevenZBuilder, String>)
    requires
        buffer@.len() == 0,
    ensures
        match r {
            Ok(w) => {
                &&& sevenz_begun(buffer@) is Ok
                &&& sevenz_usable(w)
                &&& sevenz_written(w) == Seq::<Member>::empty()
            },
            Err(text) => sevenz_begun(buffer@) == Err::<(), Seq<char>>(text@),
        },
{
    match ::sevenz_rust::SevenZWriter::new(std::io::Cursor::new(buffer)) {
        Ok(inner) => Ok(SevenZBuilder { inner }),
        Err(e) => Err(e.to_string()),
    }
}

/// Calls `sevenz_rust::SevenZWriter::push_archive_entry` with a new file
/// entry named `name` and `data` as its content. The result is what the
/// call returns for what the writer holds, the name and the bytes, the
/// error as text. On success the writer holds one more member. After an
/// error the writer is no longer claimed to be usable.
#[verifier::external_body]
fn sevenz_push(w: &mut SevenZBuilder, name: &str, data: &Vec<u8>) -> (r: Result<(), String>)
    requires
        sevenz_usable(*old(w)),
    ensures
        done_view(r) == sevenz_pushed(sevenz_written(*old(w)), name@, data@),
        r is Ok ==> sevenz_usable(*final(w)) && sevenz_written(*final(w)) == sevenz_written(
            *old(w),
        ).push((name@, data@)),
{
    let mut entry = ::sevenz_rust::SevenZArchiveEntry::new();
    entry.name = name.to_string();
    match w.inner.push_archive_entry(entry, Some(data.as_slice())) {
        Ok(_) => Ok(()),
        Err(e) => Err(e.to_string()),
    }
}

/// Calls `sevenz_rust::SevenZWriter::finish` and takes the buffer out of
/// the cursor that it returns: the bytes of the archive of the writer's
/// members, or the error as text.
#[verifier::external_body]
fn sevenz_finish(w: SevenZBuilder) -> (r: Result<Vec<u8>, String>)
    requires
        sevenz_usable(w),
    ensures
        match r {
            Ok(bytes) => sevenz_image(sevenz_written(w)) == Ok::<Seq<u8>, Seq<char>>(bytes@),
            Err(text) => sevenz_image(sevenz_written(w)) == Err::<Seq<u8>, Seq<char>>(text@),
        },
{
    w.inner.finish().map(|cursor| cursor.into_inner()).map_err(|e| e.to_string())
}

/// What becomes of pushing the first `count` of `members`, one after the
/// other, into a new writer: success, or the text of the first error.
pub open spec fn sevenz_filled(members: Seq<Member>, count: nat) -> Result<(), Seq<char>>
    decreases count,
{
    if count == 0 || count > members.len() {
        Ok(())
    } else {
        match sevenz_filled(members, (count - 1) as nat) {
            Err(text) => Err(text),
            Ok(()) => sevenz_pushed(
                members.take(count - 1),
                members[count - 1].0,
                members[count - 1].1,
            ),
        }
    }
}

/// The archive of `members`: a writer is made over an empty buffer, every
/// member is pushed, then the writer is finished. The result is the bytes
/// of the archive, or the text of the first error on the way.
pub open spec fn sevenz_packed(members: Seq<Member>) -> Result<Seq<u8>, Seq<char>> {
    match sevenz_begun(Seq::<u8>::empty()) {
        Err(text) => Err(text),
        Ok(()) => match sevenz_filled(members, members.len()) {
            Err(text) => Err(text),
            Ok(()) => sevenz_image(members),
        },
    }
}

/// Once the first `failed` members cannot be pushed, no more of them can,
/// and the error is the same.
pub proof fn lemma_sevenz_failure_stays(members: Seq<Member>, failed: nat, count: nat)
    requires
        failed <= count <= members.len(),
        sevenz_filled(members, failed) is Err,
    ensures
        sevenz_filled(members, count) == sevenz_filled(members, failed),
    decreases count,
{
    if failed < count {
        lemma_sevenz_failure_stays(members, failed, (count - 1) as nat);
    }
}

/// Writes `entries` into a new archive in memory. The result is the
/// archive that the codec built of exactly these entries, or the text of
/// the first error it reported.
pub fn pack_sevenz(entries: &Vec<ArchiveEntry>) -> (r: Result<Vec<u8>, String>)
    ensures
        packed_view(r) == sevenz_packed(members_of(entries_view(entries@))),
{
    let ghost all = members_of(entries_view(entries@));
    let buffer: Vec<u8> = Vec::new();
    assert(buffer@ =~= Seq::<u8>::empty());
    let mut writer = match sevenz_writer_new(buffer) {
        Err(text) => {
            return Err(text);
        },
        Ok(writer) => writer,
    };
    let mut i: usize = 0;
    assert(sevenz_written(writer) =~= all.take(0));
    while i < entries.len()
        invariant
            i <= entries@.len(),
            all == members_of(entries_view(entries@)),
            sevenz_begun(Seq::<u8>::empty()) is Ok,
            sevenz_usable(writer),
            sevenz_written(writer) == all.take(i as int),
            sevenz_filled(all, i as nat) is Ok,
        decreases entries@.len() - i,
    {
        let entry = &entries[i];
        assert(all[i as int] == (entry.name@, entry.data@));
        match sevenz_push(&mut writer, entry.name.as_str(), &entry.data) {
            Err(text) => {
                proof {
                    assert(sevenz_filled(all, (i + 1) as nat) == Err::<(), Seq<char>>(text@));
                    lemma_sevenz_failure_stays(all, (i + 1) as nat, all.len());
                }
                return Err(text);
            },
            Ok(()) => {},
        }
        proof {
            assert(sevenz_written(writer) =~= all.take(i + 1));
            assert(sevenz_filled(all, (i + 1) as nat) is Ok);
        }
        i += 1;
    }
    assert(all.take(i as int) =~= all);
    sevenz_finish(writer)
}

/// The entries that the host read from an archive, or the reader's failure
/// as an `ExecutionError` that keeps its text.
pub open spec fn listed_view(listed: Result<Vec<ArchiveEntry>, String>) -> Result<
    Seq<ArchiveEntryView>,
    PluginErrorView,
> {
    match listed {
        Ok(entries) => Ok(entries_view(entries@)),
        Err(text) => Err(PluginErrorView::ExecutionError(text@)),
    }
}

/// The tree and outcome of a request to unpack `archive` that comes
/// without the archive's entries: an archive that is not a file of the tree
/// is `NotFound`; one that is there is left unread, `NotImplemented`.
pub open spec fn unread(tree: Tree, archive: Seq<char>) -> (Tree, Result<(), PluginErrorView>) {
    match find(tree, archive) {
        Some(NodeView::File(_)) => (tree, Err(PluginErrorView::NotImplemented)),
        _ => (tree, Err(PluginErrorView::NotFound(archive))),
    }
}

/// The 7z plugin.
#[derive(Debug)]
pub struct SevenZipPlugin {
    config: PluginConfig,
    metadata: PluginMetadata,
}

impl SevenZipPlugin {
    /// The configuration of every 7z plugin.
    pub open spec fn fixed_config() -> PluginConfigView {
        PluginConfigView {
            name: "7-Zip Plugin"@,
            description: "Handles 7z file compression and decompression"@,
            version: "1.0.0"@,
            plugin_type: PluginTypeView::Compression,
        }
    }

    /// The metadata of every 7z plugin.
    pub open spec fn fixed_metadata() -> PluginMetadataView {
        PluginMetadataView {
            name: "7-Zip Plugin"@,
            version: "1.0.0"@,
            author: "Smart Transfer Team"@,
            description: "Handles 7z file compression and decompression"@,
            plugin_type: PluginTypeView::Compression,
            platform_support: PlatformSupport { windows: true, linux: true, macos: true },
        }
    }

    /// A plugin with the fixed configuration and metadata.
    pub fn new() -> (r: Self)
        ensures
            r.config() == Self::fixed_config(),
            r.metadata_view() == Self::fixed_metadata(),
    {
        SevenZipPlugin {
            config: PluginConfig {
                name: String::from_str("7-Zip Plugin"),
                description: String::from_str("Handles 7z file compression and decompression"),
                version: String::from_str("1.0.0"),
                plugin_type: PluginType::Compression,
            },
            metadata: PluginMetadata {
                name: String::from_str("7-Zip Plugin"),
                version: String::from_str("1.0.0"),
                author: String::from_str("Smart Transfer Team"),
                description: String::from_str("Handles 7z file compression and decompression"),
                plugin_type: PluginType::Compression,
                platform_support: PlatformSupport { windows: true, linux: true, macos: true },
            },
        }
    }

    /// Unpacks below `output_dir` the entries that the host read from the
    /// archive `archive_file`, or reports why it could not read them. An
    /// archive that is not a file of the store is `NotFound`, whatever was
    /// read. The output directory is made, then every entry is placed below
    /// it. Collisions: with `overwrite` a file that exists is replaced;
    /// without it the first entry whose place is taken stops the unpacking
    /// with `AlreadyExists`, and so does, either way, a directory in the
    /// place of a file or a file in the place of a directory. What was
    /// placed before stays.
    pub fn decompress_listed(
        &self,
        store: &mut FileStore,
        archive_file: &String,
        output_dir: &String,
        overwrite: bool,
        listed: Result<Vec<ArchiveEntry>, String>,
    ) -> (r: Result<(), PluginError>)
        requires
            old(store).wf(),
        ensures
            final(store).wf(),
            unpacking(
                |bytes: Seq<u8>| listed_view(listed),
                old(store)@,
                archive_file@,
                output_dir@,
                overwrite,
            ) == (final(store)@, outcome_view(r)),
    {
        match store.get(archive_file.as_str()) {
            Some(Node::File(_)) => {},
            _ => {
                return Err(PluginError::NotFound(archive_file.clone()));
            },
        }
        match listed {
            Err(text) => Err(PluginError::ExecutionError(text)),
            Ok(entries) => unpack_entries(store, &entries, output_dir, overwrite),
        }
    }
}

impl Plugin for SevenZipPlugin {
    closed spec fn config(&self) -> PluginConfigView {
        self.config@
    }

    closed spec fn metadata_view(&self) -> PluginMetadataView {
        self.metadata@
    }

    /// Initializing does nothing and succeeds.
    open spec fn initialize_allows(&self, after: &Self, outcome: Result<(), PluginErrorView>) -> bool {
        *after == *self && outcome is Ok
    }

    /// Cleaning up does nothing and succeeds.
    open spec fn cleanup_allows(&self, after: &Self, outcome: Result<(), PluginErrorView>) -> bool {
        *after == *self && outcome is Ok
    }

    fn get_config(&self) -> (c: &PluginConfig) {
        &self.config
    }

    fn metadata(&self) -> (m: PluginMetadata) {
        self.metadata.clone()
    }

    fn initialize(&mut self) -> (r: Result<(), PluginError>) {
        Ok(())
    }

    fn cleanup(&mut self) -> (r: Result<(), PluginError>) {
        Ok(())
    }
}

impl CompressionPlugin for SevenZipPlugin {
    /// Every input is gathered under its path relative to its parent: a
    /// file under its last component, a directory with all files below it
    /// under the directory's last component and the path below it. The
    /// codec's archive of exactly these entries becomes the output file; a
    /// failure of the codec is an `ExecutionError` with the codec's text,
    /// and nothing changes.
    open spec fn compress_allows(
        &self,
        before: Tree,
        input_files: Seq<Seq<char>>,
        output_file: Seq<char>,
        options: CompressionOptions,
        after: Tree,
        outcome: Result<(), PluginErrorView>,
    ) -> bool {
        packing_allows(
            |members: Seq<Member>| sevenz_packed(members),
            before,
            input_files,
            output_file,
            after,
            outcome,
        )
    }

    /// The archive is not read here: where it is a file of the tree the
    /// outcome is `NotImplemented`, where it is not, `NotFound`. Nothing
    /// changes. The entries go through
    /// [`SevenZipPlugin::decompress_listed`].
    open spec fn decompress_allows(
        &self,
        before: Tree,
        archive_file: Seq<char>,
        output_dir: Seq<char>,
        overwrite: bool,
        after: Tree,
        outcome: Result<(), PluginErrorView>,
    ) -> bool {
        unread(before, archive_file) == (after, outcome)
    }

    fn compress(
        &self,
        store: &mut FileStore,
        input_files: &Vec<String>,
        output_file: &String,
        options: &CompressionOptions,
    ) -> (r: Result<(), PluginError>) {
        let entries = match collect_entries(store, input_files) {
            Err(e) => {
                return Err(e);
            },
            Ok(entries) => entries,
        };
        let packed = pack_sevenz(&entries);
        store_archive(store, output_file, packed)
    }

    fn decompress(
        &self,
        store: &mut FileStore,
        archive_file: &String,
        output_dir: &String,
        overwrite: bool,
    ) -> (r: Result<(), PluginError>) {
        match store.get(archive_file.as_str()) {
            Some(Node::File(_)) => Err(PluginError::NotImplemented),
            _ => Err(PluginError::NotFound(archive_file.clone())),
        }
    }
}

} // verus!
