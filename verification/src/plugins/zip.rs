//! The ZIP adapter: packs files and whole directories into one archive and
//! unpacks an archive, with the `zip` crate as the codec.

use vstd::prelude::*;
use vstd::string::StringExecFns;
use crate::plugin_api::base::{
    outcome_view,
    Plugin,
    PluginConfig,
    PluginConfigView,
    PluginError,
    PluginErrorView,
};
use crate::plugin_api::compression::CompressionPlugin;
use crate::plugin_api::files::{
    distinct_paths,
    find,
    lemma_put_find,
    put,
    FileStore,
    Node,
    NodeView,
    Tree,
};
use crate::plugin_api::types::{
    CompressionOptions,
    PlatformSupport,
    PluginMetadata,
    PluginMetadataView,
    PluginType,
    PluginTypeView,
};
use crate::plugins::archive::{
    collect_entries,
    copy_bytes,
    entries_of_inputs,
    entries_view,
    lemma_gathered_are_files,
    lemma_placed_file_is_found,
    safe_relative,
    target_of,
    trim_sep,
    unpack_entries,
    unpacked,
    with_dir,
    ArchiveEntry,
    ArchiveEntryView,
};

verus! {

/// `std::io::Cursor`, the in-memory reader and writer that the codecs work
/// on; nothing is known of what is inside.
#[verifier::external_type_specification]
#[verifier::external_body]
#[verifier::reject_recursive_types(T)]
pub struct ExCursor<T>(std::io::Cursor<T>);

/// A `zip::ZipWriter` that writes to a buffer in memory.
#[verifier::external_body]
pub struct ZipBuilder {
    inner: ::zip::ZipWriter<std::io::Cursor<Vec<u8>>>,
}

/// `zip::ZipArchive`, an archive opened for reading; what it holds is
/// named by `zip_members`.
#[verifier::external_type_specification]
#[verifier::external_body]
#[verifier::reject_recursive_types(R)]
pub struct ExZipArchive<R>(::zip::ZipArchive<R>);

/// A member of an archive under construction: its name and the bytes
/// written to it so far.
pub type Member = (Seq<char>, Seq<u8>);

/// The members that have been started in a `zip::ZipWriter`, in order,
/// each with the bytes written to it.
pub uninterp spec fn zip_written(w: ZipBuilder) -> Seq<Member>;

/// Whether every call on the `zip::ZipWriter` so far has succeeded and
/// `finish` has not been called.
pub uninterp spec fn zip_usable(w: ZipBuilder) -> bool;

/// What `zip::ZipWriter::start_file` returns for the name `name` on a
/// writer that holds `written`: success, or the text of the error.
pub uninterp spec fn zip_started(written: Seq<Member>, name: Seq<char>) -> Result<(), Seq<char>>;

/// What `write_all` returns for `data` on a writer that holds `written`,
/// the last of them still without bytes: success, or the text of the
/// error.
pub uninterp spec fn zip_fed(written: Seq<Member>, data: Seq<u8>) -> Result<(), Seq<char>>;

/// What `zip::ZipWriter::finish` returns for a writer that holds
/// `members`: the bytes of the archive, or the text of the error.
pub uninterp spec fn zip_image(members: Seq<Member>) -> Result<Seq<u8>, Seq<char>>;

/// The view of the result of a call that hands nothing back.
pub open spec fn done_view(r: Result<(), String>) -> Result<(), Seq<char>> {
    match r {
        Ok(()) => Ok(()),
        Err(text) => Err(text@),
    }
}

/// What `zip::ZipArchive::new` returns for `bytes`: the members of the
/// archive, or the text of the error. Each member is what reading it
/// gives: the entry, or the text of the error.
pub uninterp spec fn zip_opened(bytes: Seq<u8>) -> Result<
    Seq<Result<ArchiveEntryView, Seq<char>>>,
    Seq<char>,
>;

/// The members of an open `zip::ZipArchive`, each as reading it gives it.
pub uninterp spec fn zip_members(a: ::zip::ZipArchive<std::io::Cursor<Vec<u8>>>) -> Seq<
    Result<ArchiveEntryView, Seq<char>>,
>;

/// Calls `zip::ZipWriter::new` on an empty in-memory buffer: a usable
/// writer without members.
#[verifier::external_body]
fn zip_writer_new() -> (w: ZipBuilder)
    ensures
        zip_usable(w),
        zip_written(w) == Seq::<Member>::empty(),
{
    ZipBuilder { inner: ::zip::ZipWriter::new(std::io::Cursor::new(Vec::new())) }
}

/// Calls `zip::ZipWriter::start_file` with the default options and the
/// archive format's earliest timestamp. The result is what the call
/// returns for what the writer holds and the name, the error as text. On
/// success the writer holds one more member, `name`, without bytes. After
/// an error the writer is no longer claimed to be usable.
#[verifier::external_body]
fn zip_start_file(w: &mut ZipBuilder, name: &str) -> (r: Result<(), String>)
    requires
        zip_usable(*old(w)),
    ensures
        done_view(r) == zip_started(zip_written(*old(w)), name@),
        r is Ok ==> zip_usable(*final(w)) && zip_written(*final(w)) == zip_written(*old(w)).push(
            (name@, Seq::<u8>::empty()),
        ),
{
    let options = ::zip::write::FileOptions::default().last_modified_time(
        ::zip::DateTime::default(),
    );
    w.inner.start_file(name, options).map_err(|e| e.to_string())
}

/// Calls `write_all` of `std::io::Write` on a `zip::ZipWriter` in which a
/// member has been started and not been written to. The result is what the
/// call returns for what the writer holds and the bytes, the error as text.
/// On success `data` is appended to the last member. After an error the
/// writer is no longer claimed to be usable.
#[verifier::external_body]
fn zip_write_all(w: &mut ZipBuilder, data: &Vec<u8>) -> (r: Result<(), String>)
    requires
        zip_usable(*old(w)),
        zip_written(*old(w)).len() > 0,
        zip_written(*old(w)).last().1.len() == 0,
    ensures
        done_view(r) == zip_fed(zip_written(*old(w)), data@),
        r is Ok ==> {
            &&& zip_usable(*final(w))
            &&& zip_written(*final(w)) == zip_written(*old(w)).update(
                zip_written(*old(w)).len() - 1,
                (zip_written(*old(w)).last().0, zip_written(*old(w)).last().1 + data@),
            )
        },
{
    std::io::Write::write_all(&mut w.inner, data.as_slice()).map_err(|e| e.to_string())
}

/// Calls `zip::ZipWriter::finish` and takes the buffer out of the cursor
/// that it returns: the bytes of the archive of the writer's members, or
/// the error as text.
#[verifier::external_body]
fn zip_finish(w: ZipBuilder) -> (r: Result<Vec<u8>, String>)
    requires
        zip_usable(w),
    ensures
        match r {
            Ok(bytes) => zip_image(zip_written(w)) == Ok::<Seq<u8>, Seq<char>>(bytes@),
            Err(text) => zip_image(zip_written(w)) == Err::<Seq<u8>, Seq<char>>(text@),
        },
{
    let mut w = w;
    w.inner.finish().map(|cursor| cursor.into_inner()).map_err(|e| e.to_string())
}

/// Calls `zip::ZipArchive::new` on `bytes` in memory: the open archive, or
/// the error as text.
#[verifier::external_body]
fn zip_open(bytes: Vec<u8>) -> (r: Result<::zip::ZipArchive<std::io::Cursor<Vec<u8>>>, String>)
    ensures
        match r {
            Ok(a) => zip_opened(bytes@) == Ok::<
                Seq<Result<ArchiveEntryView, Seq<char>>>,
                Seq<char>,
            >(zip_members(a)),
            Err(text) => zip_opened(bytes@) == Err::<
                Seq<Result<ArchiveEntryView, Seq<char>>>,
                Seq<char>,
            >(text@),
        },
{
    ::zip::ZipArchive::new(std::io::Cursor::new(bytes)).map_err(|e| e.to_string())
}

/// Calls `zip::ZipArchive::len`: the number of members.
#[verifier::external_body]
fn zip_len(a: &::zip::ZipArchive<std::io::Cursor<Vec<u8>>>) -> (n: usize)
    ensures
        n == zip_members(*a).len(),
{
    a.len()
}

/// Reads the member at `index`: `zip::ZipArchive::by_index_decrypt` with
/// an empty password, then `name` and `is_dir` of the `zip::read::ZipFile`
/// and, through `std::io::Read`, all of its bytes. Any failure on the way
/// comes back as text. The archive's members stay what they were.
#[verifier::external_body]
fn zip_read_member(a: &mut ::zip::ZipArchive<std::io::Cursor<Vec<u8>>>, index: usize) -> (r: Result<
    ArchiveEntry,
    String,
>)
    requires
        index < zip_members(*old(a)).len(),
    ensures
        zip_members(*final(a)) == zip_members(*old(a)),
        match r {
            Ok(entry) => zip_members(*old(a))[index as int] == Ok::<ArchiveEntryView, Seq<char>>(
                entry@,
            ),
            Err(text) => zip_members(*old(a))[index as int] == Err::<ArchiveEntryView, Seq<char>>(
                text@,
            ),
        },
{
    let mut file = match a.by_index_decrypt(index, &[]) {
        Ok(Ok(file)) => file,
        Ok(Err(e)) => return Err(e.to_string()),
        Err(e) => return Err(e.to_string()),
    };
    let mut entry = ArchiveEntry { name: file.name().to_string(), is_dir: file.is_dir(), data: Vec::new() };
    match std::io::Read::read_to_end(&mut file, &mut entry.data) {
        Ok(_) => Ok(entry),
        Err(e) => Err(e.to_string()),
    }
}

/// The entries as members of an archive to write: name and bytes.
pub open spec fn members_of(entries: Seq<ArchiveEntryView>) -> Seq<Member> {
    Seq::new(entries.len(), |i: int| (entries[i].name, entries[i].data))
}

/// What becomes of starting and writing the first `count` of `members`,
/// one after the other, in a new writer: success, or the text of the first
/// error.
pub open spec fn zip_filled(members: Seq<Member>, count: nat) -> Result<(), Seq<char>>
    decreases count,
{
    if count == 0 || count > members.len() {
        Ok(())
    } else {
        match zip_filled(members, (count - 1) as nat) {
            Err(text) => Err(text),
            Ok(()) => {
                let earlier = members.take(count - 1);
                let member = members[count - 1];
                match zip_started(earlier, member.0) {
                    Err(text) => Err(text),
                    Ok(()) => zip_fed(earlier.push((member.0, Seq::<u8>::empty())), member.1),
                }
            },
        }
    }
}

/// The archive of `members`: every member is started and written in a new
/// writer, then the writer is finished. The result is the bytes of the
/// archive, or the text of the first error on the way.
pub open spec fn zip_packed(members: Seq<Member>) -> Result<Seq<u8>, Seq<char>> {
    match zip_filled(members, members.len()) {
        Err(text) => Err(text),
        Ok(()) => zip_image(members),
    }
}

/// Once the first `failed` members cannot be written, no more of them can,
/// and the error is the same.
pub proof fn lemma_zip_failure_stays(members: Seq<Member>, failed: nat, count: nat)
    requires
        failed <= count <= members.len(),
        zip_filled(members, failed) is Err,
    ensures
        zip_filled(members, count) == zip_filled(members, failed),
    decreases count,
{
    if failed < count {
        lemma_zip_failure_stays(members, failed, (count - 1) as nat);
    }
}

/// Writes `entries` into a new archive in memory. The result is the
/// archive that the codec built of exactly these entries, or the text of
/// the first error it reported.
pub fn pack_zip(entries: &Vec<ArchiveEntry>) -> (r: Result<Vec<u8>, String>)
    ensures
        packed_view(r) == zip_packed(members_of(entries_view(entries@))),
{
    let ghost all = members_of(entries_view(entries@));
    let mut writer = zip_writer_new();
    let mut i: usize = 0;
    assert(zip_written(writer) =~= all.take(0));
    while i < entries.len()
        invariant
            i <= entries@.len(),
            all == members_of(entries_view(entries@)),
            zip_usable(writer),
            zip_written(writer) == all.take(i as int),
            zip_filled(all, i as nat) is Ok,
        decreases entries@.len() - i,
    {
        let entry = &entries[i];
        assert(all[i as int] == (entry.name@, entry.data@));
        match zip_start_file(&mut writer, entry.name.as_str()) {
            Err(text) => {
                proof {
                    assert(zip_filled(all, (i + 1) as nat) == Err::<(), Seq<char>>(text@));
                    lemma_zip_failure_stays(all, (i + 1) as nat, all.len());
                }
                return Err(text);
            },
            Ok(()) => {},
        }
        match zip_write_all(&mut writer, &entry.data) {
            Err(text) => {
                proof {
                    assert(zip_filled(all, (i + 1) as nat) == Err::<(), Seq<char>>(text@));
                    lemma_zip_failure_stays(all, (i + 1) as nat, all.len());
                }
                return Err(text);
            },
            Ok(()) => {},
        }
        proof {
            assert(Seq::<u8>::empty() + entry.data@ =~= entry.data@);
            assert(zip_written(writer) =~= all.take(i + 1));
            assert(zip_filled(all, (i + 1) as nat) is Ok);
        }
        i += 1;
    }
    assert(all.take(i as int) =~= all);
    zip_finish(writer)
}

/// The entries that reading every member gives, or the first failure as an
/// `ExecutionError` that keeps the codec's text.
pub open spec fn all_members(members: Seq<Result<ArchiveEntryView, Seq<char>>>) -> Result<
    Seq<ArchiveEntryView>,
    PluginErrorView,
>
    decreases members.len(),
{
    if members.len() == 0 {
        Ok(Seq::empty())
    } else {
        match all_members(members.drop_last()) {
            Err(e) => Err(e),
            Ok(earlier) => match members.last() {
                Err(text) => Err(PluginErrorView::ExecutionError(text)),
                Ok(entry) => Ok(earlier.push(entry)),
            },
        }
    }
}

/// Once a prefix of the members fails, the whole list fails with the same
/// error.
pub proof fn lemma_member_error_stays(
    members: Seq<Result<ArchiveEntryView, Seq<char>>>,
    failed: int,
)
    requires
        0 <= failed <= members.len(),
        all_members(members.take(failed)) is Err,
    ensures
        all_members(members) == all_members(members.take(failed)),
    decreases members.len() - failed,
{
    if failed < members.len() {
        assert(members.take(failed + 1).drop_last() =~= members.take(failed));
        lemma_member_error_stays(members, failed + 1);
    } else {
        assert(members.take(failed) =~= members);
    }
}

/// The entries of the archive `bytes`: a failure to open it, or to read a
/// member, is an `ExecutionError` that keeps the codec's text.
pub open spec fn zip_listing(bytes: Seq<u8>) -> Result<Seq<ArchiveEntryView>, PluginErrorView> {
    match zip_opened(bytes) {
        Err(text) => Err(PluginErrorView::ExecutionError(text)),
        Ok(members) => all_members(members),
    }
}

/// Opens the archive `bytes` and reads all of its members.
pub fn list_zip(bytes: Vec<u8>) -> (r: Result<Vec<ArchiveEntry>, PluginError>)
    ensures
        match r {
            Ok(entries) => zip_listing(bytes@) == Ok::<Seq<ArchiveEntryView>, PluginErrorView>(
                entries_view(entries@),
            ),
            Err(e) => zip_listing(bytes@) == Err::<Seq<ArchiveEntryView>, PluginErrorView>(e@),
        },
{
    let mut archive = match zip_open(bytes) {
        Err(text) => {
            return Err(PluginError::ExecutionError(text));
        },
        Ok(archive) => archive,
    };
    let ghost members = zip_members(archive);
    let n = zip_len(&archive);
    let mut out: Vec<ArchiveEntry> = Vec::new();
    let mut i: usize = 0;
    assert(members.take(0) =~= Seq::<Result<ArchiveEntryView, Seq<char>>>::empty());
    assert(entries_view(out@) =~= Seq::<ArchiveEntryView>::empty());
    while i < n
        invariant
            i <= n,
            n == members.len(),
            zip_members(archive) == members,
            zip_opened(bytes@) == Ok::<Seq<Result<ArchiveEntryView, Seq<char>>>, Seq<char>>(
                members,
            ),
            all_members(members.take(i as int)) == Ok::<Seq<ArchiveEntryView>, PluginErrorView>(
                entries_view(out@),
            ),
        decreases n - i,
    {
        let ghost before = entries_view(out@);
        proof {
            assert(members.take(i + 1).drop_last() =~= members.take(i as int));
            assert(members.take(i + 1).last() == members[i as int]);
        }
        match zip_read_member(&mut archive, i) {
            Err(text) => {
                proof {
                    lemma_member_error_stays(members, i + 1);
                }
                return Err(PluginError::ExecutionError(text));
            },
            Ok(entry) => {
                out.push(entry);
                assert(entries_view(out@) =~= before.push(entry@));
            },
        }
        i += 1;
    }
    assert(members.take(i as int) =~= members);
    Ok(out)
}

/// The tree and outcome once the codec has answered with `packed`: the
/// archive becomes the output file; a codec error becomes an
/// `ExecutionError` that keeps the codec's text.
pub open spec fn stored_archive(tree: Tree, output: Seq<char>, packed: Result<Seq<u8>, Seq<char>>) -> (
    Tree,
    Result<(), PluginErrorView>,
) {
    match packed {
        Ok(bytes) => (put(tree, output, NodeView::File(bytes)), Ok(())),
        Err(text) => (tree, Err(PluginErrorView::ExecutionError(text))),
    }
}

/// The view of a codec's result.
pub open spec fn packed_view(r: Result<Vec<u8>, String>) -> Result<Seq<u8>, Seq<char>> {
    match r {
        Ok(bytes) => Ok(bytes@),
        Err(text) => Err(text@),
    }
}

/// Stores what a codec answered to the packing of an archive.
pub fn store_archive(store: &mut FileStore, output_file: &String, packed: Result<Vec<u8>, String>) -> (r:
    Result<(), PluginError>)
    requires
        old(store).wf(),
    ensures
        final(store).wf(),
        stored_archive(old(store)@, output_file@, packed_view(packed)) == (
            final(store)@,
            outcome_view(r),
        ),
{
    match packed {
        Ok(bytes) => {
            store.write(output_file.clone(), bytes);
            Ok(())
        },
        Err(text) => Err(PluginError::ExecutionError(text)),
    }
}

/// What packing `inputs` into `output` leaves behind, where `image` names
/// what the codec makes of given members. An input that fails gives its
/// error and nothing changes. Otherwise the entries are gathered and handed
/// to the codec: its archive of exactly these entries becomes the output
/// file, and its failure is an `ExecutionError` that keeps the codec's
/// text and changes nothing.
pub open spec fn packing_allows(
    image: spec_fn(Seq<Member>) -> Result<Seq<u8>, Seq<char>>,
    before: Tree,
    inputs: Seq<Seq<char>>,
    output: Seq<char>,
    after: Tree,
    outcome: Result<(), PluginErrorView>,
) -> bool {
    match entries_of_inputs(before, inputs) {
        Err(e) => after == before && outcome == Err::<(), PluginErrorView>(e),
        Ok(entries) => stored_archive(before, output, image(members_of(entries))) == (
            after,
            outcome,
        ),
    }
}

/// The tree and outcome of unpacking the archive at `archive` below `dir`,
/// where `listing` names the entries of given archive bytes. An archive
/// that is not a file of the tree is `NotFound`.
pub open spec fn unpacking(
    listing: spec_fn(Seq<u8>) -> Result<Seq<ArchiveEntryView>, PluginErrorView>,
    tree: Tree,
    archive: Seq<char>,
    dir: Seq<char>,
    overwrite: bool,
) -> (Tree, Result<(), PluginErrorView>) {
    match find(tree, archive) {
        Some(NodeView::File(data)) => match listing(data) {
            Err(e) => (tree, Err(e)),
            Ok(entries) => unpacked(tree, entries, dir, overwrite),
        },
        _ => (tree, Err(PluginErrorView::NotFound(archive))),
    }
}

/// Unpacking an archive that the tree does not hold fails with `NotFound`
/// for that path and changes nothing, whatever the codec.
pub proof fn lemma_missing_archive(
    listing: spec_fn(Seq<u8>) -> Result<Seq<ArchiveEntryView>, PluginErrorView>,
    tree: Tree,
    archive: Seq<char>,
    dir: Seq<char>,
    overwrite: bool,
)
    requires
        find(tree, archive) is None,
    ensures
        unpacking(listing, tree, archive, dir, overwrite) == (
            tree,
            Err::<(), PluginErrorView>(PluginErrorView::NotFound(archive)),
        ),
{
}

/// Packing inputs and unpacking the archive again brings every gathered
/// file back, where the codec lists in an archive exactly the entries that
/// it was built of: the i-th entry, if its name is a safe relative path, is
/// found below `dir` at its relative path with its bytes, unless a later
/// entry took the same place.
pub proof fn lemma_round_trip(
    image: spec_fn(Seq<Member>) -> Result<Seq<u8>, Seq<char>>,
    listing: spec_fn(Seq<u8>) -> Result<Seq<ArchiveEntryView>, PluginErrorView>,
    tree: Tree,
    inputs: Seq<Seq<char>>,
    archive: Seq<char>,
    packed: Tree,
    dir: Seq<char>,
    overwrite: bool,
    unpacked_tree: Tree,
    i: int,
)
    requires
        distinct_paths(tree),
        entries_of_inputs(tree, inputs) is Ok,
        packing_allows(image, tree, inputs, archive, packed, Ok(())),
        image(members_of(entries_of_inputs(tree, inputs)->Ok_0)) is Ok ==> listing(
            image(members_of(entries_of_inputs(tree, inputs)->Ok_0))->Ok_0,
        ) == entries_of_inputs(tree, inputs),
        unpacking(listing, packed, archive, dir, overwrite) == (
            unpacked_tree,
            Ok::<(), PluginErrorView>(()),
        ),
        0 <= i < entries_of_inputs(tree, inputs)->Ok_0.len(),
        safe_relative(trim_sep(entries_of_inputs(tree, inputs)->Ok_0[i].name)),
        forall|j: int|
            i < j < entries_of_inputs(tree, inputs)->Ok_0.len() && safe_relative(
                trim_sep(entries_of_inputs(tree, inputs)->Ok_0[j].name),
            ) ==> target_of(dir, #[trigger] entries_of_inputs(tree, inputs)->Ok_0[j]) != target_of(
                dir,
                entries_of_inputs(tree, inputs)->Ok_0[i],
            ),
    ensures
        find(unpacked_tree, target_of(dir, entries_of_inputs(tree, inputs)->Ok_0[i])) == Some(
            NodeView::File(entries_of_inputs(tree, inputs)->Ok_0[i].data),
        ),
{
    let entries = entries_of_inputs(tree, inputs)->Ok_0;
    let bytes = image(members_of(entries))->Ok_0;
    lemma_put_find(tree, archive, NodeView::File(bytes), archive);
    assert(find(packed, archive) == Some(NodeView::File(bytes)));
    assert(listing(bytes) == Ok::<Seq<ArchiveEntryView>, PluginErrorView>(entries));
    assert(with_dir(packed, dir) is Ok);
    let ready = with_dir(packed, dir)->Ok_0;
    if dir.len() != 0 {
        lemma_put_find(packed, dir, NodeView::Directory, dir);
    }
    lemma_gathered_are_files(tree, inputs, i);
    lemma_placed_file_is_found(ready, entries, dir, overwrite, i);
}

/// Packing inputs and unpacking the archive again brings every gathered
/// entry back, where the codec lists in an archive exactly the entries that
/// it was built of, every entry's name is a safe relative path, and no two
/// entries share a place: each entry is found below `dir` at its name with
/// its bytes. With what `lemma_inputs_are_covered` says of the entries,
/// every input file is found below `dir` at its path relative to the
/// parent of its input.
pub proof fn lemma_round_trip_of_entry(
    image: spec_fn(Seq<Member>) -> Result<Seq<u8>, Seq<char>>,
    listing: spec_fn(Seq<u8>) -> Result<Seq<ArchiveEntryView>, PluginErrorView>,
    tree: Tree,
    inputs: Seq<Seq<char>>,
    archive: Seq<char>,
    packed: Tree,
    dir: Seq<char>,
    overwrite: bool,
    unpacked_tree: Tree,
    entry: ArchiveEntryView,
)
    requires
        distinct_paths(tree),
        entries_of_inputs(tree, inputs) is Ok,
        packing_allows(image, tree, inputs, archive, packed, Ok(())),
        image(members_of(entries_of_inputs(tree, inputs)->Ok_0)) is Ok ==> listing(
            image(members_of(entries_of_inputs(tree, inputs)->Ok_0))->Ok_0,
        ) == entries_of_inputs(tree, inputs),
        unpacking(listing, packed, archive, dir, overwrite) == (
            unpacked_tree,
            Ok::<(), PluginErrorView>(()),
        ),
        entries_of_inputs(tree, inputs)->Ok_0.contains(entry),
        forall|j: int|
            0 <= j < entries_of_inputs(tree, inputs)->Ok_0.len() ==> safe_relative(
                trim_sep((#[trigger] entries_of_inputs(tree, inputs)->Ok_0[j]).name),
            ),
        forall|j: int, k: int|
            0 <= j < k < entries_of_inputs(tree, inputs)->Ok_0.len() ==> target_of(
                dir,
                #[trigger] entries_of_inputs(tree, inputs)->Ok_0[j],
            ) != target_of(dir, #[trigger] entries_of_inputs(tree, inputs)->Ok_0[k]),
    ensures
        find(unpacked_tree, target_of(dir, entry)) == Some(NodeView::File(entry.data)),
{
    let entries = entries_of_inputs(tree, inputs)->Ok_0;
    let i = choose|i: int| 0 <= i < entries.len() && entries[i] == entry;
    lemma_round_trip(image, listing, tree, inputs, archive, packed, dir, overwrite, unpacked_tree, i);
}

/// The ZIP plugin.
#[derive(Debug)]
pub struct ZipPlugin {
    config: PluginConfig,
    metadata: PluginMetadata,
}

impl ZipPlugin {
    /// The configuration of every ZIP plugin.
    pub open spec fn fixed_config() -> PluginConfigView {
        PluginConfigView {
            name: "ZIP Plugin"@,
            description: "Handles ZIP file compression and decompression"@,
            version: "1.0.0"@,
            plugin_type: PluginTypeView::Compression,
        }
    }

    /// The metadata of every ZIP plugin.
    pub open spec fn fixed_metadata() -> PluginMetadataView {
        PluginMetadataView {
            name: "ZIP Plugin"@,
            version: "1.0.0"@,
            author: "Smart Transfer Team"@,
            description: "Handles ZIP file compression and decompression"@,
            plugin_type: PluginTypeView::Compression,
            platform_support: PlatformSupport { windows: true, linux: true, macos: true },
        }
    }

    /// A plugin with the fixed configuration and metadata.
    pub fn new() -> (r: Self)
        ensures
            r.config() == Self::fixed_config(),
            r.metadata_view() == Self::fixed_metadata(),
    {
        ZipPlugin {
            config: PluginConfig {
                name: String::from_str("ZIP Plugin"),
                description: String::from_str("Handles ZIP file compression and decompression"),
                version: String::from_str("1.0.0"),
                plugin_type: PluginType::Compression,
            },
            metadata: PluginMetadata {
                name: String::from_str("ZIP Plugin"),
                version: String::from_str("1.0.0"),
                author: String::from_str("Smart Transfer Team"),
                description: String::from_str("Handles ZIP file compression and decompression"),
                plugin_type: PluginType::Compression,
                platform_support: PlatformSupport { windows: true, linux: true, macos: true },
            },
        }
    }
}

impl Plugin for ZipPlugin {
    closed spec fn config(&self) -> PluginConfigView {
        self.config@
    }

    closed spec fn metadata_view(&self) -> PluginMetadataView {
        self.metadata@
    }

    /// Initializing does nothing and succeeds.
    open spec fn initialize_allows(&self, after: &Self, outcome: Result<(), PluginErrorView>) -> bool {
        *after == *self && outcome is Ok
    }

    /// Cleaning up does nothing and succeeds.
    open spec fn cleanup_allows(&self, after: &Self, outcome: Result<(), PluginErrorView>) -> bool {
        *after == *self && outcome is Ok
    }

    fn get_config(&self) -> (c: &PluginConfig) {
        &self.config
    }

    fn metadata(&self) -> (m: PluginMetadata) {
        self.metadata.clone()
    }

    fn initialize(&mut self) -> (r: Result<(), PluginError>) {
        Ok(())
    }

    fn cleanup(&mut self) -> (r: Result<(), PluginError>) {
        Ok(())
    }
}

impl CompressionPlugin for ZipPlugin {
    /// Every input is gathered under its path relative to its parent: a
    /// file under its last component, a directory with all files below it
    /// under the directory's last component and the path below it. The
    /// codec's archive of exactly these entries becomes the output file; a
    /// failure of the codec is an `ExecutionError` with the codec's text,
    /// and nothing changes.
    open spec fn compress_allows(
        &self,
        before: Tree,
        input_files: Seq<Seq<char>>,
        output_file: Seq<char>,
        options: CompressionOptions,
        after: Tree,
        outcome: Result<(), PluginErrorView>,
    ) -> bool {
        packing_allows(
            |members: Seq<Member>| zip_packed(members),
            before,
            input_files,
            output_file,
            after,
            outcome,
        )
    }

    /// The output directory is made, then every entry is placed below it.
    /// Collisions: with `overwrite` a file that exists is replaced; without
    /// it the first entry whose place is taken stops the unpacking with
    /// `AlreadyExists`, and so does, either way, a directory in the place of
    /// a file or a file in the place of a directory. What was placed before
    /// stays.
    open spec fn decompress_allows(
        &self,
        before: Tree,
        archive_file: Seq<char>,
        output_dir: Seq<char>,
        overwrite: bool,
        after: Tree,
        outcome: Result<(), PluginErrorView>,
    ) -> bool {
        unpacking(|bytes: Seq<u8>| zip_listing(bytes), before, archive_file, output_dir, overwrite)
            == (after, outcome)
    }

    fn compress(
        &self,
        store: &mut FileStore,
        input_files: &Vec<String>,
        output_file: &String,
        options: &CompressionOptions,
    ) -> (r: Result<(), PluginError>) {
        let entries = match collect_entries(store, input_files) {
            Err(e) => {
                return Err(e);
            },
            Ok(entries) => entries,
        };
        let packed = pack_zip(&entries);
        store_archive(store, output_file, packed)
    }

    fn decompress(
        &self,
        store: &mut FileStore,
        archive_file: &String,
        output_dir: &String,
        overwrite: bool,
    ) -> (r: Result<(), PluginError>) {
        let bytes = match store.get(archive_file.as_str()) {
            Some(Node::File(data)) => copy_bytes(data),
            _ => {
                return Err(PluginError::NotFound(archive_file.clone()));
            },
        };
        match list_zip(bytes) {
            Err(e) => Err(e),
            Ok(entries) => unpack_entries(store, &entries, output_dir, overwrite),
        }
    }
}

} // verus!
