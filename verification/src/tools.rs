//! Where the tools are found that the tasks run.
//!
//! A tool on the search path is taken from there. `probe-rs` may also have been
//! installed by the embedded extension, below [`MANAGED_DIR`] in the home
//! directory: one directory for each version, of which the latest counts. The
//! directories are read one by one, as [`FileSearch`] asks for them.

use crate::order::{name_order, names_view, sort_names};
use vstd::prelude::*;
use vstd::utf8::encode_utf8;

verus! {

/// Where the embedded extension keeps its versions of `probe-rs`, in the home
/// directory.
pub const MANAGED_DIR: &'static str = ".yz61-embedded/tools/probe-rs";

/// How many levels of directories are searched for `probe-rs`.
pub const SEARCH_DEPTH: u8 = 4;

/// The command of a tool: where it was found, or its bare name where it was not.
pub fn which_or(program: &str, found: Option<String>) -> (command: String)
    ensures
        command@ == match found {
            Some(path) => path@,
            None => program@,
        },
{
    match found {
        Some(path) => path,
        None => program.to_owned(),
    }
}

/// The variables of the environment that may name the home directory.
#[derive(Debug, PartialEq, Eq, Clone, Copy)]
pub enum HomeVariable {
    UserProfile,
    Home,
}

/// How the search for `probe-rs` starts.
#[derive(Debug, PartialEq, Eq)]
pub enum ProbeStart {
    /// The command is known.
    Ready(String),
    /// The managed versions in the home directory are to be listed.
    ListVersions(HomeVariable),
}

/// How the search for `probe-rs` starts: it is taken from the search path if it
/// is there, and looked for in the home directory if it is not. `USERPROFILE`
/// names that before `HOME` does; without either the bare name has to do.
pub fn find_probe_rs(
    on_path: Option<String>,
    has_user_profile: bool,
    has_home: bool,
) -> (start: ProbeStart)
    ensures
        match on_path {
            Some(path) => start matches ProbeStart::Ready(command) && command@ == path@,
            None => if has_user_profile {
                start == ProbeStart::ListVersions(HomeVariable::UserProfile)
            } else if has_home {
                start == ProbeStart::ListVersions(HomeVariable::Home)
            } else {
                start matches ProbeStart::Ready(command) && command@ == "probe-rs"@
            },
        },
{
    match on_path {
        Some(path) => ProbeStart::Ready(path),
        None => if has_user_profile {
            ProbeStart::ListVersions(HomeVariable::UserProfile)
        } else if has_home {
            ProbeStart::ListVersions(HomeVariable::Home)
        } else {
            ProbeStart::Ready("probe-rs".to_owned())
        },
    }
}

/// The file name of `probe-rs`.
pub open spec fn exe_name(windows: bool) -> Seq<char> {
    if windows {
        "probe-rs.exe"@
    } else {
        "probe-rs"@
    }
}

/// The file name of `probe-rs`.
pub fn probe_exe(windows: bool) -> (name: &'static str)
    ensures
        name@ == exe_name(windows),
{
    if windows {
        "probe-rs.exe"
    } else {
        "probe-rs"
    }
}

/// What a directory holds under one name.
#[derive(Debug, PartialEq, Eq)]
pub struct Entry {
    pub name: Vec<u8>,
    pub is_file: bool,
    pub is_dir: bool,
}

/// The mathematical value of an [`Entry`].
pub struct EntryView {
    pub name: Seq<u8>,
    pub is_file: bool,
    pub is_dir: bool,
}

impl View for Entry {
    type V = EntryView;

    open spec fn view(&self) -> EntryView {
        EntryView { name: self.name@, is_file: self.is_file, is_dir: self.is_dir }
    }
}

/// What a directory holds, or `None` where it cannot be read.
pub open spec fn listing_view(listing: Option<Vec<Entry>>) -> Option<Seq<EntryView>> {
    match listing {
        Some(entries) => Some(entries@.map_values(|entry: Entry| entry@)),
        None => None,
    }
}

/// The names of the directories among `entries`.
pub open spec fn folder_names(entries: Seq<EntryView>) -> Seq<Seq<u8>>
    decreases entries.len(),
{
    if entries.len() == 0 {
        Seq::empty()
    } else if entries.last().is_dir {
        folder_names(entries.drop_last()).push(entries.last().name)
    } else {
        folder_names(entries.drop_last())
    }
}

/// The names of the directories in a listing, in order.
pub open spec fn sorted_folders(listing: Option<Seq<EntryView>>) -> Seq<Seq<u8>> {
    match listing {
        Some(entries) => folder_names(entries).sort_by(name_order()),
        None => Seq::empty(),
    }
}

/// Whether a listing holds a file called `name`.
pub open spec fn holds_file(listing: Option<Seq<EntryView>>, name: Seq<u8>) -> bool {
    listing matches Some(entries) && exists|i: int|
        0 <= i < entries.len() && (#[trigger] entries[i]).is_file && entries[i].name == name
}

/// The latest of the versions that a listing holds: the last of its directories.
pub open spec fn latest(listing: Option<Seq<EntryView>>) -> Option<Seq<u8>> {
    if sorted_folders(listing).len() > 0 {
        Some(sorted_folders(listing).last())
    } else {
        None
    }
}

/// A copy of a name.
fn copy_name(name: &Vec<u8>) -> (copy: Vec<u8>)
    ensures
        copy@ == name@,
{
    let mut copy: Vec<u8> = Vec::new();
    for i in 0..name.len()
        invariant
            copy@ == name@.take(i as int),
    {
        copy.push(name[i]);
        assert(copy@ =~= name@.take(i + 1));
    }
    assert(name@.take(name@.len() as int) =~= name@);
    copy
}

/// Whether two names are the same.
fn same_name(a: &Vec<u8>, b: &Vec<u8>) -> (same: bool)
    ensures
        same == (a@ == b@),
{
    if a.len() != b.len() {
        return false;
    }
    for i in 0..a.len()
        invariant
            a@.len() == b@.len(),
            forall|k: int| 0 <= k < i ==> a@[k] == b@[k],
    {
        if a[i] != b[i] {
            return false;
        }
    }
    assert(a@ =~= b@);
    true
}

/// The names of the directories in a listing, in order.
fn list_folders(listing: &Option<Vec<Entry>>) -> (names: Vec<Vec<u8>>)
    ensures
        names_view(names@) == sorted_folders(listing_view(*listing)),
{
    let mut names: Vec<Vec<u8>> = Vec::new();
    let entries = match listing {
        Some(entries) => entries,
        None => {
            assert(names_view(names@) =~= Seq::empty());
            return names;
        },
    };
    let ghost all = entries@.map_values(|entry: Entry| entry@);
    assert(names_view(names@) =~= Seq::empty());
    for i in 0..entries.len()
        invariant
            all == entries@.map_values(|entry: Entry| entry@),
            names_view(names@) == folder_names(all.take(i as int)),
    {
        let ghost before = names_view(names@);
        assert(all.take(i + 1).drop_last() =~= all.take(i as int));
        assert(all.take(i + 1).last() == entries@[i as int]@);
        if entries[i].is_dir {
            names.push(copy_name(&entries[i].name));
            assert(names_view(names@) =~= before.push(entries@[i as int].name@));
        }
    }
    assert(all.take(all.len() as int) =~= all);
    sort_names(names)
}

/// Whether a listing holds a file called `name`.
fn lists_file(listing: &Option<Vec<Entry>>, name: &Vec<u8>) -> (found: bool)
    ensures
        found == holds_file(listing_view(*listing), name@),
{
    let entries = match listing {
        Some(entries) => entries,
        None => {
            return false;
        },
    };
    let ghost all = entries@.map_values(|entry: Entry| entry@);
    for i in 0..entries.len()
        invariant
            all == entries@.map_values(|entry: Entry| entry@),
            listing_view(*listing) == Some(all),
            forall|k: int| 0 <= k < i ==> !((#[trigger] all[k]).is_file && all[k].name == name@),
    {
        assert(all[i as int] == entries@[i as int]@);
        if entries[i].is_file && same_name(&entries[i].name, name) {
            let ghost seen = listing_view(*listing)->0;
            assert(seen[i as int].is_file && seen[i as int].name == name@);
            return true;
        }
    }
    false
}

/// The latest of the managed versions.
pub fn latest_version(listing: &Option<Vec<Entry>>) -> (version: Option<Vec<u8>>)
    ensures
        latest(listing_view(*listing)) == match version {
            Some(name) => Some(name@),
            None => None,
        },
{
    let mut names = list_folders(listing);
    let ghost all = names_view(names@);
    let version = names.pop();
    if let Some(name) = &version {
        assert(all.last() == name@);
    }
    version
}

/// A directory to be read: the names that lead to it from where the search
/// starts, and how many levels may be read from it on.
#[derive(Debug, PartialEq, Eq)]
pub struct Folder {
    pub path: Vec<Vec<u8>>,
    pub depth: u8,
}

/// The mathematical value of a [`Folder`].
pub struct FolderView {
    pub path: Seq<Seq<u8>>,
    pub depth: nat,
}

impl View for Folder {
    type V = FolderView;

    open spec fn view(&self) -> FolderView {
        FolderView { path: names_view(self.path@), depth: self.depth as nat }
    }
}

/// The values of some directories.
pub open spec fn folders_view(folders: Seq<Folder>) -> Seq<FolderView> {
    folders.map_values(|folder: Folder| folder@)
}

/// The first file called `name` at `path` or below, to a depth of `depth`
/// directories. A file in a directory comes before those in the directories
/// inside it, and these come in the order of their names. `tree` is what the
/// directories hold.
pub open spec fn find_in(
    tree: spec_fn(Seq<Seq<u8>>) -> Option<Seq<EntryView>>,
    path: Seq<Seq<u8>>,
    name: Seq<u8>,
    depth: nat,
) -> Option<Seq<Seq<u8>>>
    decreases depth, 0nat,
{
    if depth == 0 {
        None
    } else if holds_file(tree(path), name) {
        Some(path.push(name))
    } else {
        find_below(tree, path, sorted_folders(tree(path)), name, (depth - 1) as nat)
    }
}

/// The first file called `name` in the directories `folders` at `path`.
pub open spec fn find_below(
    tree: spec_fn(Seq<Seq<u8>>) -> Option<Seq<EntryView>>,
    path: Seq<Seq<u8>>,
    folders: Seq<Seq<u8>>,
    name: Seq<u8>,
    depth: nat,
) -> Option<Seq<Seq<u8>>>
    decreases depth, folders.len(),
{
    if folders.len() == 0 {
        None
    } else {
        match find_in(tree, path.push(folders[0]), name, depth) {
            Some(found) => Some(found),
            None => find_below(tree, path, folders.skip(1), name, depth),
        }
    }
}

/// The first file called `name` in directories that are still to be read, of
/// which the last is read first.
pub open spec fn find_among(
    tree: spec_fn(Seq<Seq<u8>>) -> Option<Seq<EntryView>>,
    pending: Seq<FolderView>,
    name: Seq<u8>,
) -> Option<Seq<Seq<u8>>>
    decreases pending.len(),
{
    if pending.len() == 0 {
        None
    } else {
        let folder = pending.last();
        match find_in(tree, folder.path, name, folder.depth) {
            Some(found) => Some(found),
            None => find_among(tree, pending.drop_last(), name),
        }
    }
}

/// The directories `folders` at `path`, such that the first of them is the last.
pub open spec fn stacked(path: Seq<Seq<u8>>, folders: Seq<Seq<u8>>, depth: nat) -> Seq<FolderView>
    decreases folders.len(),
{
    if folders.len() == 0 {
        Seq::empty()
    } else {
        stacked(path, folders.skip(1), depth).push(
            FolderView { path: path.push(folders[0]), depth },
        )
    }
}

/// The directories to be read after those in `listing`, which `folder` holds.
pub open spec fn inside(folder: FolderView, listing: Option<Seq<EntryView>>) -> Seq<FolderView> {
    if folder.depth > 1 {
        stacked(folder.path, sorted_folders(listing), (folder.depth - 1) as nat)
    } else {
        Seq::empty()
    }
}

/// A search for a file in a directory and those below it.
#[derive(Debug, PartialEq, Eq)]
pub struct FileSearch {
    name: Vec<u8>,
    pending: Vec<Folder>,
}

impl FileSearch {
    /// The file name that is searched for.
    pub closed spec fn wanted(self) -> Seq<u8> {
        self.name@
    }

    /// The directories that are still to be read, of which the last is the next.
    pub closed spec fn stack(self) -> Seq<FolderView> {
        folders_view(self.pending@)
    }

    /// A search for a file called `name`, to a depth of `depth` directories.
    pub fn find_file(name: &str, depth: u8) -> (search: FileSearch)
        ensures
            search.wanted() == encode_utf8(name@),
            search.stack() == if depth > 0 {
                seq![FolderView { path: Seq::empty(), depth: depth as nat }]
            } else {
                Seq::empty()
            },
    {
        let wanted = name.as_bytes();
        let mut bytes: Vec<u8> = Vec::new();
        for i in 0..wanted.len()
            invariant
                bytes@ == wanted@.take(i as int),
        {
            bytes.push(wanted[i]);
            assert(bytes@ =~= wanted@.take(i + 1));
        }
        assert(wanted@.take(wanted@.len() as int) =~= wanted@);
        let mut pending: Vec<Folder> = Vec::new();
        if depth > 0 {
            let start = Folder { path: Vec::new(), depth };
            assert(start@.path =~= Seq::empty());
            pending.push(start);
        }
        let search = FileSearch { name: bytes, pending };
        assert(search.stack() =~= if depth > 0 {
            seq![FolderView { path: Seq::empty(), depth: depth as nat }]
        } else {
            Seq::empty()
        });
        search
    }

    /// The directory to be read next; none is left if the file was not found.
    pub fn next_folder(&mut self) -> (folder: Option<Folder>)
        ensures
            final(self).wanted() == old(self).wanted(),
            match folder {
                Some(f) => {
                    &&& old(self).stack().len() > 0
                    &&& f@ == old(self).stack().last()
                    &&& final(self).stack() == old(self).stack().drop_last()
                },
                None => old(self).stack().len() == 0 && final(self).stack() == old(self).stack(),
            },
    {
        let ghost before = self.stack();
        let folder = self.pending.pop();
        if let Some(f) = &folder {
            assert(before.last() == f@);
            assert(self.stack() =~= before.drop_last());
        } else {
            assert(self.stack() =~= before);
        }
        folder
    }

    /// Goes on after `folder` was read and `listing` was found in it, `None` if it
    /// cannot be read: the file is there, or the directories in it are to be read
    /// next, where the depth allows it.
    pub fn visit(&mut self, folder: &Folder, listing: &Option<Vec<Entry>>) -> (found: Option<
        Vec<Vec<u8>>,
    >)
        ensures
            final(self).wanted() == old(self).wanted(),
            match found {
                Some(path) => {
                    &&& holds_file(listing_view(*listing), old(self).wanted())
                    &&& names_view(path@) == folder@.path.push(old(self).wanted())
                    &&& final(self).stack() == old(self).stack()
                },
                None => {
                    &&& !holds_file(listing_view(*listing), old(self).wanted())
                    &&& final(self).stack() == old(self).stack() + inside(
                        folder@,
                        listing_view(*listing),
                    )
                },
            },
    {
        let ghost before = self.stack();
        if lists_file(listing, &self.name) {
            let path = longer_path(&folder.path, &self.name);
            return Some(path);
        }
        if folder.depth <= 1 {
            assert(before + inside(folder@, listing_view(*listing)) =~= before);
            return None;
        }
        let names = list_folders(listing);
        let ghost all = names_view(names@);
        let ghost depth = (folder.depth - 1) as nat;
        let mut left: usize = names.len();
        assert(all.skip(all.len() as int) =~= Seq::empty());
        assert(before + stacked(folder@.path, all.skip(left as int), depth) =~= before);
        while left > 0
            invariant
                all == names_view(names@),
                left <= names@.len(),
                folder.depth > 1,
                depth == folder.depth - 1,
                self.wanted() == old(self).wanted(),
                self.stack() == before + stacked(folder@.path, all.skip(left as int), depth),
            decreases left,
        {
            let ghost rest = stacked(folder@.path, all.skip(left as int), depth);
            left = left - 1;
            assert(all.skip(left as int).skip(1) =~= all.skip(left + 1));
            assert(all.skip(left as int)[0] == names@[left as int]@);
            let sub = Folder {
                path: longer_path(&folder.path, &names[left]),
                depth: folder.depth - 1,
            };
            let ghost view = sub@;
            let ghost stack = self.stack();
            self.pending.push(sub);
            assert(self.stack() =~= stack.push(view));
            assert((before + rest).push(view) =~= before + rest.push(view));
        }
        assert(all.skip(0) =~= all);
        None
    }
}

/// A path with one name more.
fn longer_path(path: &Vec<Vec<u8>>, name: &Vec<u8>) -> (longer: Vec<Vec<u8>>)
    ensures
        names_view(longer@) == names_view(path@).push(name@),
{
    let mut longer: Vec<Vec<u8>> = Vec::new();
    assert(names_view(longer@) =~= names_view(path@).take(0));
    for i in 0..path.len()
        invariant
            names_view(longer@) == names_view(path@).take(i as int),
    {
        let ghost before = names_view(longer@);
        longer.push(copy_name(&path[i]));
        assert(names_view(longer@) =~= before.push(path@[i as int]@));
        assert(names_view(longer@) =~= names_view(path@).take(i + 1));
    }
    let ghost before = names_view(longer@);
    longer.push(copy_name(name));
    assert(names_view(longer@) =~= before.push(name@));
    assert(names_view(path@).take(path@.len() as int) =~= names_view(path@));
    longer
}

/// How the search among the managed versions goes on once they are listed.
#[derive(Debug, PartialEq, Eq)]
pub enum ManagedStart {
    /// The command is known.
    Ready(String),
    /// The search is to be run in the directory of this version.
    Search { version: Vec<u8>, search: FileSearch },
}

/// How the search among the managed versions goes on: in the latest of them, for
/// the file name of `probe-rs`, to the depth [`SEARCH_DEPTH`]. Without versions the
/// bare name has to do.
pub fn search_managed(listing: &Option<Vec<Entry>>, windows: bool) -> (start: ManagedStart)
    ensures
        match latest(listing_view(*listing)) {
            Some(name) => start matches ManagedStart::Search { version, search } && {
                &&& version@ == name
                &&& search.wanted() == encode_utf8(exe_name(windows))
                &&& search.stack() == seq![
                    FolderView { path: Seq::empty(), depth: SEARCH_DEPTH as nat },
                ]
            },
            None => start matches ManagedStart::Ready(command) && command@ == "probe-rs"@,
        },
{
    match latest_version(listing) {
        Some(version) => ManagedStart::Search {
            version,
            search: FileSearch::find_file(probe_exe(windows), SEARCH_DEPTH),
        },
        None => ManagedStart::Ready("probe-rs".to_owned()),
    }
}

/// The command of `probe-rs` after the search among the managed versions: the file
/// that was found, or the bare name.
pub fn managed_command(found: Option<String>) -> (command: String)
    ensures
        command@ == match found {
            Some(path) => path@,
            None => "probe-rs"@,
        },
{
    which_or("probe-rs", found)
}

/// A search that is going on: the directories to be read, and the file once it is
/// found.
pub struct SearchState {
    pub pending: Seq<FolderView>,
    pub found: Option<Seq<Seq<u8>>>,
}

/// A search after at most `steps` directories were read, where `tree` is what
/// they hold. Each step is one of [`FileSearch::next_folder`] with one of
/// [`FileSearch::visit`].
pub open spec fn search_run(
    tree: spec_fn(Seq<Seq<u8>>) -> Option<Seq<EntryView>>,
    pending: Seq<FolderView>,
    name: Seq<u8>,
    steps: nat,
) -> SearchState
    decreases steps,
{
    if steps == 0 || pending.len() == 0 {
        SearchState { pending, found: None }
    } else {
        let folder = pending.last();
        let rest = pending.drop_last();
        if holds_file(tree(folder.path), name) {
            SearchState { pending: rest, found: Some(folder.path.push(name)) }
        } else {
            search_run(
                tree,
                rest + inside(folder, tree(folder.path)),
                name,
                (steps - 1) as nat,
            )
        }
    }
}

/// Whether every directory to be read lies at a level that a search to the depth
/// `depth` reaches.
pub open spec fn within_depth(pending: Seq<FolderView>, depth: nat) -> bool {
    forall|i: int|
        0 <= i < pending.len() ==> (#[trigger] pending[i]).depth > 0 && pending[i].path.len()
            + pending[i].depth == depth
}

proof fn lemma_find_stacked(
    tree: spec_fn(Seq<Seq<u8>>) -> Option<Seq<EntryView>>,
    rest: Seq<FolderView>,
    path: Seq<Seq<u8>>,
    folders: Seq<Seq<u8>>,
    name: Seq<u8>,
    depth: nat,
)
    ensures
        find_among(tree, rest + stacked(path, folders, depth), name) == match find_below(
            tree,
            path,
            folders,
            name,
            depth,
        ) {
            Some(found) => Some(found),
            None => find_among(tree, rest, name),
        },
    decreases folders.len(),
{
    if folders.len() == 0 {
        assert(rest + stacked(path, folders, depth) =~= rest);
    } else {
        let first = FolderView { path: path.push(folders[0]), depth };
        let others = stacked(path, folders.skip(1), depth);
        let all = rest + stacked(path, folders, depth);
        assert(all =~= (rest + others).push(first));
        assert(all.drop_last() =~= rest + others);
        lemma_find_stacked(tree, rest, path, folders.skip(1), name, depth);
    }
}

proof fn lemma_stacked_depth(path: Seq<Seq<u8>>, folders: Seq<Seq<u8>>, depth: nat)
    requires
        depth > 0,
    ensures
        within_depth(stacked(path, folders, depth), path.len() + 1 + depth),
    decreases folders.len(),
{
    if folders.len() > 0 {
        lemma_stacked_depth(path, folders.skip(1), depth);
    }
}

proof fn lemma_find_without_depth(
    tree: spec_fn(Seq<Seq<u8>>) -> Option<Seq<EntryView>>,
    path: Seq<Seq<u8>>,
    folders: Seq<Seq<u8>>,
    name: Seq<u8>,
)
    ensures
        find_below(tree, path, folders, name, 0) is None,
    decreases folders.len(),
{
    if folders.len() > 0 {
        assert(find_in(tree, path.push(folders[0]), name, 0) is None);
        lemma_find_without_depth(tree, path, folders.skip(1), name);
    }
}

proof fn lemma_search_run(
    tree: spec_fn(Seq<Seq<u8>>) -> Option<Seq<EntryView>>,
    pending: Seq<FolderView>,
    name: Seq<u8>,
    depth: nat,
    steps: nat,
)
    requires
        within_depth(pending, depth),
    ensures
        within_depth(search_run(tree, pending, name, steps).pending, depth),
        find_among(tree, pending, name) == match search_run(tree, pending, name, steps).found {
            Some(path) => Some(path),
            None => find_among(tree, search_run(tree, pending, name, steps).pending, name),
        },
    decreases steps,
{
    if steps > 0 && pending.len() > 0 {
        let folder = pending.last();
        let rest = pending.drop_last();
        let listing = tree(folder.path);
        assert(within_depth(rest, depth));
        if !holds_file(listing, name) {
            let next = rest + inside(folder, listing);
            let folders = sorted_folders(listing);
            let below = (folder.depth - 1) as nat;
            if folder.depth > 1 {
                lemma_find_stacked(tree, rest, folder.path, folders, name, below);
                lemma_stacked_depth(folder.path, folders, below);
                assert forall|i: int| 0 <= i < next.len() implies (#[trigger] next[i]).depth > 0
                    && next[i].path.len() + next[i].depth == depth by {
                    if i >= rest.len() {
                        assert(next[i] == inside(folder, listing)[i - rest.len()]);
                    }
                }
            } else {
                lemma_find_without_depth(tree, folder.path, folders, name);
                assert(next =~= rest);
            }
            lemma_search_run(tree, next, name, depth, (steps - 1) as nat);
        }
    }
}

/// A search, started as [`FileSearch::find_file`] starts it, finds what
/// [`find_in`] describes. Where it has found a file, that is the one;
/// where nothing is left to be read, there is none. No directory deeper than the
/// depth allows is read.
pub proof fn law_search_finds_first_file(
    tree: spec_fn(Seq<Seq<u8>>) -> Option<Seq<EntryView>>,
    name: Seq<u8>,
    depth: nat,
    steps: nat,
)
    requires
        depth > 0,
    ensures
        ({
            let start = seq![FolderView { path: Seq::empty(), depth }];
            let run = search_run(tree, start, name, steps);
            let answer = find_in(tree, Seq::empty(), name, depth);
            &&& within_depth(run.pending, depth)
            &&& run.found is Some ==> answer == run.found
            &&& run.found is None && run.pending.len() == 0 ==> answer is None
        }),
{
    let start = seq![FolderView { path: Seq::<Seq<u8>>::empty(), depth }];
    lemma_search_run(tree, start, name, depth, steps);
    assert(start.drop_last() =~= Seq::empty());
    assert(find_among(tree, start.drop_last(), name) is None);
}

/// How many directories a search reads at most at `path` and below.
pub open spec fn reads_in(
    tree: spec_fn(Seq<Seq<u8>>) -> Option<Seq<EntryView>>,
    path: Seq<Seq<u8>>,
    depth: nat,
) -> nat
    decreases depth, 0nat,
{
    if depth > 1 {
        1 + reads_below(tree, path, sorted_folders(tree(path)), (depth - 1) as nat)
    } else {
        1
    }
}

/// How many directories a search reads at most in the directories `folders` at
/// `path`.
pub open spec fn reads_below(
    tree: spec_fn(Seq<Seq<u8>>) -> Option<Seq<EntryView>>,
    path: Seq<Seq<u8>>,
    folders: Seq<Seq<u8>>,
    depth: nat,
) -> nat
    decreases depth, folders.len(),
{
    if folders.len() == 0 {
        0
    } else {
        reads_in(tree, path.push(folders[0]), depth) + reads_below(
            tree,
            path,
            folders.skip(1),
            depth,
        )
    }
}

/// How many directories a search reads at most when these are still to be read.
pub open spec fn reads_among(
    tree: spec_fn(Seq<Seq<u8>>) -> Option<Seq<EntryView>>,
    pending: Seq<FolderView>,
) -> nat
    decreases pending.len(),
{
    if pending.len() == 0 {
        0
    } else {
        reads_in(tree, pending.last().path, pending.last().depth) + reads_among(
            tree,
            pending.drop_last(),
        )
    }
}

proof fn lemma_reads_stacked(
    tree: spec_fn(Seq<Seq<u8>>) -> Option<Seq<EntryView>>,
    rest: Seq<FolderView>,
    path: Seq<Seq<u8>>,
    folders: Seq<Seq<u8>>,
    depth: nat,
)
    ensures
        reads_among(tree, rest + stacked(path, folders, depth)) == reads_among(tree, rest)
            + reads_below(tree, path, folders, depth),
    decreases folders.len(),
{
    if folders.len() == 0 {
        assert(rest + stacked(path, folders, depth) =~= rest);
    } else {
        let first = FolderView { path: path.push(folders[0]), depth };
        let others = stacked(path, folders.skip(1), depth);
        let all = rest + stacked(path, folders, depth);
        assert(all =~= (rest + others).push(first));
        assert(all.drop_last() =~= rest + others);
        lemma_reads_stacked(tree, rest, path, folders.skip(1), depth);
    }
}

proof fn lemma_search_ends(
    tree: spec_fn(Seq<Seq<u8>>) -> Option<Seq<EntryView>>,
    pending: Seq<FolderView>,
    name: Seq<u8>,
    steps: nat,
)
    requires
        steps >= reads_among(tree, pending),
    ensures
        ({
            let run = search_run(tree, pending, name, steps);
            run.found is Some || run.pending.len() == 0
        }),
    decreases steps,
{
    if pending.len() > 0 {
        let folder = pending.last();
        let rest = pending.drop_last();
        let listing = tree(folder.path);
        assert(reads_in(tree, folder.path, folder.depth) >= 1);
        if !holds_file(listing, name) {
            let next = rest + inside(folder, listing);
            if folder.depth > 1 {
                lemma_reads_stacked(
                    tree,
                    rest,
                    folder.path,
                    sorted_folders(listing),
                    (folder.depth - 1) as nat,
                );
            } else {
                assert(next =~= rest);
            }
            lemma_search_ends(tree, next, name, (steps - 1) as nat);
        }
    }
}

/// Whether a search is at its end, with `answer` as what it found.
pub open spec fn ends_with_answer(run: SearchState, answer: Option<Seq<Seq<u8>>>) -> bool {
    &&& run.found is Some || run.pending.len() == 0
    &&& run.found == answer
}

/// Every search comes to its end, and then has found the file if there is one.
pub proof fn law_search_ends(
    tree: spec_fn(Seq<Seq<u8>>) -> Option<Seq<EntryView>>,
    name: Seq<u8>,
    depth: nat,
)
    requires
        depth > 0,
    ensures
        exists|steps: nat| #[trigger]
            ends_with_answer(
                search_run(
                    tree,
                    seq![FolderView { path: Seq::empty(), depth }],
                    name,
                    steps,
                ),
                find_in(tree, Seq::empty(), name, depth),
            ),
{
    let start = seq![FolderView { path: Seq::<Seq<u8>>::empty(), depth }];
    let steps = reads_among(tree, start);
    lemma_search_ends(tree, start, name, steps);
    law_search_finds_first_file(tree, name, depth, steps);
    assert(ends_with_answer(
        search_run(tree, start, name, steps),
        find_in(tree, Seq::empty(), name, depth),
    ));
}

/// What the directory of the version `version` holds, where `tree` is what the
/// managed directory does.
pub open spec fn version_tree(
    tree: spec_fn(Seq<Seq<u8>>) -> Option<Seq<EntryView>>,
    version: Seq<u8>,
) -> spec_fn(Seq<Seq<u8>>) -> Option<Seq<EntryView>> {
    |path: Seq<Seq<u8>>| tree(seq![version] + path)
}

/// Where `probe-rs` is in the managed directory: in the latest version, at the
/// first place that is not too deep.
pub open spec fn managed_file(
    tree: spec_fn(Seq<Seq<u8>>) -> Option<Seq<EntryView>>,
    windows: bool,
) -> Option<Seq<Seq<u8>>> {
    match latest(tree(Seq::empty())) {
        Some(version) => match find_in(
            version_tree(tree, version),
            Seq::empty(),
            encode_utf8(exe_name(windows)),
            SEARCH_DEPTH as nat,
        ) {
            Some(path) => Some(seq![version] + path),
            None => None,
        },
        None => None,
    }
}

/// The search that [`search_managed`] starts in the latest version finds the
/// managed `probe-rs`: where it has found a file, that is the one, and where nothing
/// is left to be read, there is none.
pub proof fn law_managed_search_finds_probe_rs(
    tree: spec_fn(Seq<Seq<u8>>) -> Option<Seq<EntryView>>,
    windows: bool,
    version: Seq<u8>,
    steps: nat,
)
    requires
        latest(tree(Seq::empty())) == Some(version),
    ensures
        ({
            let start = seq![FolderView { path: Seq::empty(), depth: SEARCH_DEPTH as nat }];
            let run = search_run(
                version_tree(tree, version),
                start,
                encode_utf8(exe_name(windows)),
                steps,
            );
            &&& run.found matches Some(path) ==> managed_file(tree, windows) == Some(
                seq![version] + path,
            )
            &&& run.found is None && run.pending.len() == 0 ==> managed_file(tree, windows) is None
        }),
{
    law_search_finds_first_file(
        version_tree(tree, version),
        encode_utf8(exe_name(windows)),
        SEARCH_DEPTH as nat,
        steps,
    );
}

/// Older versions make no difference: `probe-rs` is the same wherever the latest
/// version and what it holds are.
pub proof fn law_only_latest_version_counts(
    tree: spec_fn(Seq<Seq<u8>>) -> Option<Seq<EntryView>>,
    other: spec_fn(Seq<Seq<u8>>) -> Option<Seq<EntryView>>,
    windows: bool,
)
    requires
        latest(tree(Seq::empty())) == latest(other(Seq::empty())),
        latest(tree(Seq::empty())) matches Some(version) ==> version_tree(tree, version)
            == version_tree(other, version),
    ensures
        managed_file(tree, windows) == managed_file(other, windows),
{
}

} // verus!
