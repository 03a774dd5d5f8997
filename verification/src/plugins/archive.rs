//! What every archive adapter does around its codec: gather the entries of
//! an archive from a file tree, and place the entries of an archive in one.

use vstd::prelude::*;
use vstd::string::{StrSliceExecFns, StringExecFns};
use crate::plugin_api::base::{PluginError, PluginErrorView};
use crate::plugin_api::compression::paths_view;
use crate::plugin_api::files::{
    distinct_paths,
    find,
    has_path,
    is_file_in,
    lemma_put_find,
    put,
    FileStore,
    Node,
    NodeView,
    Tree,
};
use crate::plugin_api::paths::{file_name, file_name_of, join, join_of, relative_of, relative_to};

verus! {

/// One member of an archive: a path relative to the archive's root, and
/// the bytes of the file, or the mark of a directory.
#[derive(Debug)]
pub struct ArchiveEntry {
    pub name: String,
    pub is_dir: bool,
    pub data: Vec<u8>,
}

/// Mathematical value of an [`ArchiveEntry`].
pub struct ArchiveEntryView {
    pub name: Seq<char>,
    pub is_dir: bool,
    pub data: Seq<u8>,
}

impl View for ArchiveEntry {
    type V = ArchiveEntryView;

    open spec fn view(&self) -> ArchiveEntryView {
        ArchiveEntryView { name: self.name@, is_dir: self.is_dir, data: self.data@ }
    }
}

/// The views of a list of entries.
pub open spec fn entries_view(entries: Seq<ArchiveEntry>) -> Seq<ArchiveEntryView> {
    Seq::new(entries.len(), |i: int| entries[i]@)
}

/// The file entry `name` with `data`.
pub open spec fn file_entry(name: Seq<char>, data: Seq<u8>) -> ArchiveEntryView {
    ArchiveEntryView { name, is_dir: false, data }
}

/// The files of `tree` that lie below `dir`, in the order of the tree,
/// each named by `top` and, below it, its path relative to `dir`. With the
/// last component of `dir` as `top` that is the path relative to the
/// parent of `dir`.
pub open spec fn files_below(tree: Tree, dir: Seq<char>, top: Seq<char>) -> Seq<ArchiveEntryView>
    decreases tree.len(),
{
    if tree.len() == 0 {
        Seq::empty()
    } else {
        let earlier = files_below(tree.drop_last(), dir, top);
        match (tree.last().1, relative_of(tree.last().0, dir)) {
            (NodeView::File(data), Some(rel)) => earlier.push(file_entry(join_of(top, rel), data)),
            _ => earlier,
        }
    }
}

/// The text of the error for an input without a last component.
pub open spec fn invalid_name_text() -> Seq<char> {
    "Invalid file name"@
}

/// The entries that one input contributes, each named by its path
/// relative to the parent of the input: a file under its last component, a
/// directory with every file below it under the directory's last component
/// and the path below the directory. An input that the tree does not hold
/// is `NotFound`; an input whose path has no last component is
/// `InvalidInput`.
pub open spec fn entries_of_input(tree: Tree, input: Seq<char>) -> Result<
    Seq<ArchiveEntryView>,
    PluginErrorView,
> {
    match find(tree, input) {
        None => Err(PluginErrorView::NotFound(input)),
        Some(node) => match file_name_of(input) {
            None => Err(PluginErrorView::InvalidInput(invalid_name_text())),
            Some(name) => match node {
                NodeView::Directory => Ok(files_below(tree, input, name)),
                NodeView::File(data) => Ok(seq![file_entry(name, data)]),
            },
        },
    }
}

/// The entries of all inputs, in the order of the inputs; the first input
/// that fails gives the error.
pub open spec fn entries_of_inputs(tree: Tree, inputs: Seq<Seq<char>>) -> Result<
    Seq<ArchiveEntryView>,
    PluginErrorView,
>
    decreases inputs.len(),
{
    if inputs.len() == 0 {
        Ok(Seq::empty())
    } else {
        match entries_of_inputs(tree, inputs.drop_last()) {
            Err(e) => Err(e),
            Ok(earlier) => match entries_of_input(tree, inputs.last()) {
                Err(e) => Err(e),
                Ok(more) => Ok(earlier + more),
            },
        }
    }
}

/// A copy of `data`.
pub fn copy_bytes(data: &Vec<u8>) -> (r: Vec<u8>)
    ensures
        r@ == data@,
{
    let mut out: Vec<u8> = Vec::new();
    let mut i: usize = 0;
    while i < data.len()
        invariant
            i <= data@.len(),
            out@ == data@.take(i as int),
        decreases data@.len() - i,
    {
        out.push(data[i]);
        assert(data@.take(i + 1) =~= data@.take(i as int).push(data@[i as int]));
        i += 1;
    }
    assert(data@.take(i as int) =~= data@);
    out
}

/// Appends to `out` every file of `store` below `dir`, named by `top` and
/// its path below `dir`.
fn push_files_below(store: &FileStore, dir: &str, top: &str, out: &mut Vec<ArchiveEntry>)
    ensures
        entries_view(final(out)@) == entries_view(old(out)@) + files_below(store@, dir@, top@),
{
    let ghost start = entries_view(out@);
    let n = store.len();
    let mut i: usize = 0;
    assert(store@.take(0) =~= Seq::<(Seq<char>, NodeView)>::empty());
    assert(entries_view(out@) =~= start + files_below(store@.take(0), dir@, top@));
    while i < n
        invariant
            i <= n,
            n == store@.len(),
            entries_view(out@) == start + files_below(store@.take(i as int), dir@, top@),
        decreases n - i,
    {
        let ghost before = entries_view(out@);
        proof {
            assert(store@.take(i + 1).drop_last() =~= store@.take(i as int));
            assert(store@.take(i + 1).last() == store@[i as int]);
        }
        match store.node_at(i) {
            Node::File(data) => {
                match relative_to(store.path_at(i).as_str(), dir) {
                    Some(rel) => {
                        let entry = ArchiveEntry {
                            name: join(top, rel.as_str()),
                            is_dir: false,
                            data: copy_bytes(data),
                        };
                        out.push(entry);
                        assert(entries_view(out@) =~= before.push(entry@));
                        assert(entries_view(out@) =~= start + files_below(
                            store@.take(i + 1),
                            dir@,
                            top@,
                        ));
                    },
                    None => {},
                }
            },
            Node::Directory => {},
        }
        i += 1;
    }
    assert(store@.take(n as int) =~= store@);
}

/// Gathers the entries of an archive of `inputs`, each named by its path
/// relative to the parent of its input: a file under its last component,
/// a directory with every file below it under the directory's last
/// component and the path below the directory.
pub fn collect_entries(store: &FileStore, inputs: &Vec<String>) -> (r: Result<
    Vec<ArchiveEntry>,
    PluginError,
>)
    requires
        store.wf(),
    ensures
        match r {
            Ok(entries) => entries_of_inputs(store@, paths_view(inputs@)) == Ok::<
                Seq<ArchiveEntryView>,
                PluginErrorView,
            >(entries_view(entries@)),
            Err(e) => entries_of_inputs(store@, paths_view(inputs@)) == Err::<
                Seq<ArchiveEntryView>,
                PluginErrorView,
            >(e@),
        },
{
    let mut out: Vec<ArchiveEntry> = Vec::new();
    let ghost all = paths_view(inputs@);
    let mut i: usize = 0;
    assert(all.take(0) =~= Seq::<Seq<char>>::empty());
    assert(entries_view(out@) =~= Seq::<ArchiveEntryView>::empty());
    while i < inputs.len()
        invariant
            i <= inputs@.len(),
            store.wf(),
            all == paths_view(inputs@),
            entries_of_inputs(store@, all.take(i as int)) == Ok::<
                Seq<ArchiveEntryView>,
                PluginErrorView,
            >(entries_view(out@)),
        decreases inputs@.len() - i,
    {
        let ghost before = entries_view(out@);
        let input = &inputs[i];
        proof {
            assert(all.take(i + 1).drop_last() =~= all.take(i as int));
            assert(all.take(i + 1).last() == input@);
        }
        let node = match store.get(input.as_str()) {
            None => {
                proof {
                    lemma_error_stays(store@, all, i + 1);
                    assert(all.take(all.len() as int) =~= all);
                }
                return Err(PluginError::NotFound(input.clone()));
            },
            Some(node) => node,
        };
        let name = match file_name(input.as_str()) {
            None => {
                proof {
                    lemma_error_stays(store@, all, i + 1);
                    assert(all.take(all.len() as int) =~= all);
                }
                return Err(PluginError::InvalidInput(String::from_str("Invalid file name")));
            },
            Some(name) => name,
        };
        match node {
            Node::Directory => {
                push_files_below(store, input.as_str(), name.as_str(), &mut out);
            },
            Node::File(data) => {
                let entry = ArchiveEntry { name, is_dir: false, data: copy_bytes(data) };
                out.push(entry);
                assert(entries_view(out@) =~= before + seq![entry@]);
            },
        }
        i += 1;
    }
    assert(all.take(i as int) =~= all);
    Ok(out)
}

/// Once a prefix of the inputs fails, every longer prefix fails with the
/// same error.
pub proof fn lemma_error_stays(tree: Tree, inputs: Seq<Seq<char>>, failed: int)
    requires
        0 <= failed <= inputs.len(),
        entries_of_inputs(tree, inputs.take(failed)) is Err,
    ensures
        entries_of_inputs(tree, inputs) == entries_of_inputs(tree, inputs.take(failed)),
    decreases inputs.len() - failed,
{
    if failed < inputs.len() {
        assert(inputs.take(failed + 1).drop_last() =~= inputs.take(failed));
        lemma_error_stays(tree, inputs, failed + 1);
    } else {
        assert(inputs.take(failed) =~= inputs);
    }
}

/// Whether the component `..` starts at position `i` of `name`.
pub open spec fn parent_at(name: Seq<char>, i: int) -> bool {
    &&& 0 <= i
    &&& i + 1 < name.len()
    &&& name[i] == '.'
    &&& name[i + 1] == '.'
    &&& (i == 0 || name[i - 1] == '/')
    &&& (i + 2 == name.len() || name[i + 2] == '/')
}

/// A name that stays below the directory it is joined to: not empty, not
/// starting at the root, and without a component `..`.
pub open spec fn safe_relative(name: Seq<char>) -> bool {
    &&& name.len() > 0
    &&& name[0] != '/'
    &&& forall|i: int| 0 <= i < name.len() ==> !parent_at(name, i)
}

/// `name` without one trailing separator.
pub open spec fn trim_sep(name: Seq<char>) -> Seq<char> {
    if name.len() > 0 && name.last() == '/' {
        name.drop_last()
    } else {
        name
    }
}

/// Where an entry goes below `dir`.
pub open spec fn target_of(dir: Seq<char>, entry: ArchiveEntryView) -> Seq<char> {
    join_of(dir, trim_sep(entry.name))
}

/// The tree after one entry has been placed below `dir`.
///
/// An entry whose name is not a safe relative path is skipped. A directory
/// entry makes its target a directory, unless a file is in the way. A file
/// entry is written to its target; a target that exists is replaced only
/// where it is a file and `overwrite` is set. An entry that may not take
/// its target ends in `AlreadyExists` with the target.
pub open spec fn place(tree: Tree, entry: ArchiveEntryView, dir: Seq<char>, overwrite: bool) -> Result<
    Tree,
    PluginErrorView,
> {
    let target = target_of(dir, entry);
    if !safe_relative(trim_sep(entry.name)) {
        Ok(tree)
    } else if entry.is_dir {
        if is_file_in(tree, target) {
            Err(PluginErrorView::AlreadyExists(target))
        } else {
            Ok(put(tree, target, NodeView::Directory))
        }
    } else if has_path(tree, target) && !(overwrite && is_file_in(tree, target)) {
        Err(PluginErrorView::AlreadyExists(target))
    } else {
        Ok(put(tree, target, NodeView::File(entry.data)))
    }
}

/// The tree and the outcome after the entries have been placed in order;
/// the first entry that fails stops the rest, and what was placed before
/// it stays.
pub open spec fn place_all(
    tree: Tree,
    entries: Seq<ArchiveEntryView>,
    dir: Seq<char>,
    overwrite: bool,
) -> (Tree, Result<(), PluginErrorView>)
    decreases entries.len(),
{
    if entries.len() == 0 {
        (tree, Ok(()))
    } else {
        match place(tree, entries.first(), dir, overwrite) {
            Err(e) => (tree, Err(e)),
            Ok(next) => place_all(next, entries.drop_first(), dir, overwrite),
        }
    }
}

/// Whether `name` is a safe relative path.
pub fn is_safe_relative(name: &str) -> (r: bool)
    ensures
        r == safe_relative(name@),
{
    let n = name.unicode_len();
    if n == 0 {
        return false;
    }
    if name.get_char(0) == '/' {
        return false;
    }
    let mut i: usize = 0;
    while i + 1 < n
        invariant
            n == name@.len(),
            i < n,
            forall|j: int| 0 <= j < i ==> !parent_at(name@, j),
        decreases n - i,
    {
        if name.get_char(i) == '.' && name.get_char(i + 1) == '.' {
            let starts = i == 0 || name.get_char(i - 1) == '/';
            let ends = i + 2 == n || name.get_char(i + 2) == '/';
            if starts && ends {
                assert(parent_at(name@, i as int));
                return false;
            }
        }
        i += 1;
    }
    true
}

/// `name` without one trailing separator.
pub fn trim_trailing_sep(name: &str) -> (r: String)
    ensures
        r@ == trim_sep(name@),
{
    let n = name.unicode_len();
    if n > 0 && name.get_char(n - 1) == '/' {
        name.substring_char(0, n - 1).to_owned()
    } else {
        assert(name@.subrange(0, n as int) =~= name@);
        name.substring_char(0, n).to_owned()
    }
}

/// Places one entry below `dir`.
pub fn place_entry(store: &mut FileStore, entry: &ArchiveEntry, dir: &str, overwrite: bool) -> (r:
    Result<(), PluginError>)
    requires
        old(store).wf(),
    ensures
        final(store).wf(),
        match r {
            Ok(()) => place(old(store)@, entry@, dir@, overwrite) == Ok::<Tree, PluginErrorView>(
                final(store)@,
            ),
            Err(e) => {
                &&& place(old(store)@, entry@, dir@, overwrite) == Err::<Tree, PluginErrorView>(e@)
                &&& final(store)@ == old(store)@
            },
        },
{
    let name = trim_trailing_sep(entry.name.as_str());
    if !is_safe_relative(name.as_str()) {
        return Ok(());
    }
    let target = join(dir, name.as_str());
    if entry.is_dir {
        if store.is_file(target.as_str()) {
            Err(PluginError::AlreadyExists(target))
        } else {
            store.insert(target, Node::Directory);
            Ok(())
        }
    } else if store.contains_path(target.as_str()) && !(overwrite && store.is_file(
        target.as_str(),
    )) {
        Err(PluginError::AlreadyExists(target))
    } else {
        store.write(target, copy_bytes(&entry.data));
        Ok(())
    }
}

/// The tree in which `dir` is a directory: as it was where `dir` is empty
/// or a directory already; `AlreadyExists` where a file is in the way.
pub open spec fn with_dir(tree: Tree, dir: Seq<char>) -> Result<Tree, PluginErrorView> {
    if dir.len() == 0 {
        Ok(tree)
    } else if is_file_in(tree, dir) {
        Err(PluginErrorView::AlreadyExists(dir))
    } else {
        Ok(put(tree, dir, NodeView::Directory))
    }
}

/// Makes `dir` a directory of the store.
pub fn ensure_dir(store: &mut FileStore, dir: &String) -> (r: Result<(), PluginError>)
    requires
        old(store).wf(),
    ensures
        final(store).wf(),
        match r {
            Ok(()) => with_dir(old(store)@, dir@) == Ok::<Tree, PluginErrorView>(final(store)@),
            Err(e) => {
                &&& with_dir(old(store)@, dir@) == Err::<Tree, PluginErrorView>(e@)
                &&& final(store)@ == old(store)@
            },
        },
{
    if dir.as_str().unicode_len() == 0 {
        Ok(())
    } else if store.is_file(dir.as_str()) {
        Err(PluginError::AlreadyExists(dir.clone()))
    } else {
        store.insert(dir.clone(), Node::Directory);
        Ok(())
    }
}

/// The tree and the outcome of unpacking `entries` below `dir`: the
/// directory is made first, then the entries are placed in order.
pub open spec fn unpacked(tree: Tree, entries: Seq<ArchiveEntryView>, dir: Seq<char>, overwrite: bool) -> (
    Tree,
    Result<(), PluginErrorView>,
) {
    match with_dir(tree, dir) {
        Err(e) => (tree, Err(e)),
        Ok(ready) => place_all(ready, entries, dir, overwrite),
    }
}

/// Makes `dir` a directory and places the entries below it.
pub fn unpack_entries(
    store: &mut FileStore,
    entries: &Vec<ArchiveEntry>,
    dir: &String,
    overwrite: bool,
) -> (r: Result<(), PluginError>)
    requires
        old(store).wf(),
    ensures
        final(store).wf(),
        unpacked(old(store)@, entries_view(entries@), dir@, overwrite) == (
            final(store)@,
            crate::plugin_api::base::outcome_view(r),
        ),
{
    match ensure_dir(store, dir) {
        Err(e) => Err(e),
        Ok(()) => extract_entries(store, entries, dir.as_str(), overwrite),
    }
}

/// Places the entries below `dir`, in order, up to the first that fails.
pub fn extract_entries(
    store: &mut FileStore,
    entries: &Vec<ArchiveEntry>,
    dir: &str,
    overwrite: bool,
) -> (r: Result<(), PluginError>)
    requires
        old(store).wf(),
    ensures
        final(store).wf(),
        place_all(old(store)@, entries_view(entries@), dir@, overwrite) == (
            final(store)@,
            crate::plugin_api::base::outcome_view(r),
        ),
{
    let ghost all = entries_view(entries@);
    let ghost start = store@;
    let mut i: usize = 0;
    assert(all.skip(0) =~= all);
    while i < entries.len()
        invariant
            store.wf(),
            i <= entries@.len(),
            all == entries_view(entries@),
            start == old(store)@,
            place_all(start, all, dir@, overwrite) == place_all(
                store@,
                all.skip(i as int),
                dir@,
                overwrite,
            ),
        decreases entries@.len() - i,
    {
        proof {
            assert(all.skip(i as int).first() == entries@[i as int]@);
            assert(all.skip(i as int).drop_first() =~= all.skip(i + 1));
        }
        match place_entry(store, &entries[i], dir, overwrite) {
            Ok(()) => {},
            Err(e) => {
                return Err(e);
            },
        }
        i += 1;
    }
    Ok(())
}

/// Placing one entry keeps the paths distinct and leaves every path but
/// the entry's target as it was.
pub proof fn lemma_place_keeps(
    tree: Tree,
    entry: ArchiveEntryView,
    dir: Seq<char>,
    overwrite: bool,
    other: Seq<char>,
)
    requires
        distinct_paths(tree),
        place(tree, entry, dir, overwrite) is Ok,
    ensures
        distinct_paths(place(tree, entry, dir, overwrite)->Ok_0),
        other != target_of(dir, entry) ==> find(place(tree, entry, dir, overwrite)->Ok_0, other)
            == find(tree, other),
        !safe_relative(trim_sep(entry.name)) ==> place(tree, entry, dir, overwrite)->Ok_0 == tree,
        safe_relative(trim_sep(entry.name)) && !entry.is_dir ==> find(
            place(tree, entry, dir, overwrite)->Ok_0,
            target_of(dir, entry),
        ) == Some(NodeView::File(entry.data)),
{
    let target = target_of(dir, entry);
    if safe_relative(trim_sep(entry.name)) {
        if entry.is_dir {
            lemma_put_find(tree, target, NodeView::Directory, other);
        } else {
            lemma_put_find(tree, target, NodeView::File(entry.data), other);
        }
    }
}

/// Placing entries leaves a path as it was where no safe entry among them
/// has it as its target.
pub proof fn lemma_place_all_keeps(
    tree: Tree,
    entries: Seq<ArchiveEntryView>,
    dir: Seq<char>,
    overwrite: bool,
    other: Seq<char>,
)
    requires
        distinct_paths(tree),
        forall|j: int|
            0 <= j < entries.len() && safe_relative(trim_sep(entries[j].name)) ==> target_of(
                dir,
                #[trigger] entries[j],
            ) != other,
    ensures
        distinct_paths(place_all(tree, entries, dir, overwrite).0),
        find(place_all(tree, entries, dir, overwrite).0, other) == find(tree, other),
    decreases entries.len(),
{
    if entries.len() > 0 {
        let first = entries.first();
        if place(tree, first, dir, overwrite) is Ok {
            let next = place(tree, first, dir, overwrite)->Ok_0;
            lemma_place_keeps(tree, first, dir, overwrite, other);
            let rest = entries.drop_first();
            assert forall|j: int|
                0 <= j < rest.len() && safe_relative(trim_sep(rest[j].name)) implies target_of(
                dir,
                #[trigger] rest[j],
            ) != other by {
                assert(rest[j] == entries[j + 1]);
            }
            lemma_place_all_keeps(next, rest, dir, overwrite, other);
        }
    }
}

/// After the entries have been placed without failure, a file entry with
/// a safe name is found at its target with its bytes, unless a later entry
/// took the same target.
pub proof fn lemma_placed_file_is_found(
    tree: Tree,
    entries: Seq<ArchiveEntryView>,
    dir: Seq<char>,
    overwrite: bool,
    i: int,
)
    requires
        distinct_paths(tree),
        place_all(tree, entries, dir, overwrite).1 is Ok,
        0 <= i < entries.len(),
        !entries[i].is_dir,
        safe_relative(trim_sep(entries[i].name)),
        forall|j: int|
            i < j < entries.len() && safe_relative(trim_sep(entries[j].name)) ==> target_of(
                dir,
                #[trigger] entries[j],
            ) != target_of(dir, entries[i]),
    ensures
        find(place_all(tree, entries, dir, overwrite).0, target_of(dir, entries[i])) == Some(
            NodeView::File(entries[i].data),
        ),
    decreases entries.len(),
{
    let first = entries.first();
    let rest = entries.drop_first();
    let target = target_of(dir, entries[i]);
    assert(place(tree, first, dir, overwrite) is Ok);
    let next = place(tree, first, dir, overwrite)->Ok_0;
    lemma_place_keeps(tree, first, dir, overwrite, target);
    if i == 0 {
        assert forall|j: int|
            0 <= j < rest.len() && safe_relative(trim_sep(rest[j].name)) implies target_of(
            dir,
            #[trigger] rest[j],
        ) != target by {
            assert(rest[j] == entries[j + 1]);
        }
        lemma_place_all_keeps(next, rest, dir, overwrite, target);
    } else {
        assert(rest[i - 1] == entries[i]);
        assert forall|j: int|
            i - 1 < j < rest.len() && safe_relative(trim_sep(rest[j].name)) implies target_of(
            dir,
            #[trigger] rest[j],
        ) != target_of(dir, rest[i - 1]) by {
            assert(rest[j] == entries[j + 1]);
        }
        lemma_placed_file_is_found(next, rest, dir, overwrite, i - 1);
    }
}


/// Every entry gathered from below a directory is a file entry.
pub proof fn lemma_files_below_are_files(tree: Tree, dir: Seq<char>, top: Seq<char>, i: int)
    requires
        0 <= i < files_below(tree, dir, top).len(),
    ensures
        !files_below(tree, dir, top)[i].is_dir,
    decreases tree.len(),
{
    if tree.len() > 0 {
        let earlier = files_below(tree.drop_last(), dir, top);
        if i < earlier.len() {
            lemma_files_below_are_files(tree.drop_last(), dir, top, i);
        }
    }
}

/// Every entry gathered from the inputs is a file entry.
pub proof fn lemma_gathered_are_files(tree: Tree, inputs: Seq<Seq<char>>, i: int)
    requires
        entries_of_inputs(tree, inputs) is Ok,
        0 <= i < entries_of_inputs(tree, inputs)->Ok_0.len(),
    ensures
        !entries_of_inputs(tree, inputs)->Ok_0[i].is_dir,
    decreases inputs.len(),
{
    if inputs.len() > 0 {
        let earlier = entries_of_inputs(tree, inputs.drop_last())->Ok_0;
        let more = entries_of_input(tree, inputs.last())->Ok_0;
        if i < earlier.len() {
            lemma_gathered_are_files(tree, inputs.drop_last(), i);
        } else {
            assert((earlier + more)[i] == more[i - earlier.len()]);
            if find(tree, inputs.last()) == Some(NodeView::Directory) {
                lemma_files_below_are_files(
                    tree,
                    inputs.last(),
                    file_name_of(inputs.last())->Some_0,
                    i - earlier.len(),
                );
            }
        }
    }
}


/// A file of the tree that lies below `dir` is among the entries gathered
/// from below `dir`, under `top` and its relative path, and with its bytes.
pub proof fn lemma_file_below_is_gathered(tree: Tree, dir: Seq<char>, top: Seq<char>, at: int)
    requires
        0 <= at < tree.len(),
        tree[at].1 is File,
        relative_of(tree[at].0, dir) is Some,
    ensures
        files_below(tree, dir, top).contains(
            file_entry(join_of(top, relative_of(tree[at].0, dir)->Some_0), tree[at].1->File_0),
        ),
    decreases tree.len(),
{
    let wanted = file_entry(
        join_of(top, relative_of(tree[at].0, dir)->Some_0),
        tree[at].1->File_0,
    );
    let earlier = files_below(tree.drop_last(), dir, top);
    if at == tree.len() - 1 {
        assert(files_below(tree, dir, top) == earlier.push(wanted));
        assert(files_below(tree, dir, top)[earlier.len() as int] == wanted);
    } else {
        assert(tree.drop_last()[at] == tree[at]);
        lemma_file_below_is_gathered(tree.drop_last(), dir, top, at);
        let k = choose|k: int| 0 <= k < earlier.len() && earlier[k] == wanted;
        assert(files_below(tree, dir, top)[k] == wanted);
    }
}

/// Where gathering succeeds, what each input contributes is among the
/// gathered entries.
pub proof fn lemma_input_is_gathered(
    tree: Tree,
    inputs: Seq<Seq<char>>,
    at: int,
    entry: ArchiveEntryView,
)
    requires
        entries_of_inputs(tree, inputs) is Ok,
        0 <= at < inputs.len(),
        entries_of_input(tree, inputs[at]) is Ok,
        entries_of_input(tree, inputs[at])->Ok_0.contains(entry),
    ensures
        entries_of_inputs(tree, inputs)->Ok_0.contains(entry),
    decreases inputs.len(),
{
    let all = entries_of_inputs(tree, inputs)->Ok_0;
    let earlier = entries_of_inputs(tree, inputs.drop_last())->Ok_0;
    let more = entries_of_input(tree, inputs.last())->Ok_0;
    assert(all == earlier + more);
    if at == inputs.len() - 1 {
        let k = choose|k: int| 0 <= k < more.len() && more[k] == entry;
        assert(all[earlier.len() + k] == entry);
    } else {
        assert(inputs.drop_last()[at] == inputs[at]);
        lemma_input_is_gathered(tree, inputs.drop_last(), at, entry);
        let k = choose|k: int| 0 <= k < earlier.len() && earlier[k] == entry;
        assert(all[k] == entry);
    }
}

/// Where gathering succeeds, every input has a last component; an input
/// that is a file is among the entries under it, and every file below an
/// input that is a directory is among them under its path relative to the
/// parent of that directory: the directory's last component, then the path
/// below the directory.
pub proof fn lemma_inputs_are_covered(tree: Tree, inputs: Seq<Seq<char>>, at: int, below: int)
    requires
        entries_of_inputs(tree, inputs) is Ok,
        0 <= at < inputs.len(),
        0 <= below < tree.len(),
    ensures
        file_name_of(inputs[at]) is Some,
        find(tree, inputs[at]) is Some && find(tree, inputs[at])->Some_0 is File
            ==> entries_of_inputs(tree, inputs)->Ok_0.contains(
            file_entry(file_name_of(inputs[at])->Some_0, find(tree, inputs[at])->Some_0->File_0),
        ),
        find(tree, inputs[at]) == Some(NodeView::Directory) && tree[below].1 is File && relative_of(
            tree[below].0,
            inputs[at],
        ) is Some ==> entries_of_inputs(tree, inputs)->Ok_0.contains(
            file_entry(
                join_of(
                    file_name_of(inputs[at])->Some_0,
                    relative_of(tree[below].0, inputs[at])->Some_0,
                ),
                tree[below].1->File_0,
            ),
        ),
{
    lemma_each_input_succeeds(tree, inputs, at);
    if find(tree, inputs[at]) is Some && find(tree, inputs[at])->Some_0 is File {
        let entry = file_entry(
            file_name_of(inputs[at])->Some_0,
            find(tree, inputs[at])->Some_0->File_0,
        );
        assert(entries_of_input(tree, inputs[at])->Ok_0[0] == entry);
        lemma_input_is_gathered(tree, inputs, at, entry);
    }
    if find(tree, inputs[at]) == Some(NodeView::Directory) && tree[below].1 is File && relative_of(
        tree[below].0,
        inputs[at],
    ) is Some {
        lemma_file_below_is_gathered(tree, inputs[at], file_name_of(inputs[at])->Some_0, below);
        lemma_input_is_gathered(
            tree,
            inputs,
            at,
            file_entry(
                join_of(
                    file_name_of(inputs[at])->Some_0,
                    relative_of(tree[below].0, inputs[at])->Some_0,
                ),
                tree[below].1->File_0,
            ),
        );
    }
}

/// Where gathering succeeds, it succeeded on every input.
pub proof fn lemma_each_input_succeeds(tree: Tree, inputs: Seq<Seq<char>>, at: int)
    requires
        entries_of_inputs(tree, inputs) is Ok,
        0 <= at < inputs.len(),
    ensures
        entries_of_input(tree, inputs[at]) is Ok,
    decreases inputs.len(),
{
    if at < inputs.len() - 1 {
        assert(inputs.drop_last()[at] == inputs[at]);
        lemma_each_input_succeeds(tree, inputs.drop_last(), at);
    }
}


} // verus!
