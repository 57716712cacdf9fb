//! Where tools are looked for.

use crate::order::{law_name_order_is_total, name_le, name_order, names_view};
use crate::tools::{
    exe_name, find_below, find_in, folder_names, folders_view, holds_file, inside, latest,
    listing_view, managed_file, sorted_folders, stacked, version_tree, Entry, EntryView, Folder,
    FolderView, MANAGED_DIR, SEARCH_DEPTH,
};
use vstd::prelude::*;
use vstd::relations::{antisymmetric, sorted_by};
use vstd::utf8::encode_utf8;

verus! {

/// A name comes before another if it is a part of it from the start, or has the smaller
/// byte where they first differ.
pub proof fn law_names_are_ordered_by_bytes(a: Seq<u8>, b: Seq<u8>)
    ensures
        name_le(a, b) <==> a.is_prefix_of(b) || exists|k: int|
            0 <= k < a.len() && k < b.len() && a.take(k) == b.take(k) && #[trigger] a[k] < b[k],
    decreases a.len(),
{
    if a.len() == 0 {
        assert(a =~= b.subrange(0, 0));
    } else if b.len() > 0 {
        let x = a.skip(1);
        let y = b.skip(1);
        law_names_are_ordered_by_bytes(x, y);
        if a[0] == b[0] {
            if name_le(a, b) {
                if x.is_prefix_of(y) {
                    assert(a =~= b.subrange(0, a.len() as int)) by {
                        assert forall|i: int| 0 <= i < a.len() implies a[i] == b[i] by {
                            if i > 0 {
                                assert(x[i - 1] == y.subrange(0, x.len() as int)[i - 1]);
                            }
                        }
                    }
                } else {
                    let k = choose|k: int|
                        0 <= k < x.len() && k < y.len() && x.take(k) == y.take(k) && #[trigger] x[k]
                            < y[k];
                    assert(a.take(k + 1) =~= b.take(k + 1)) by {
                        assert forall|i: int| 0 <= i < k + 1 implies a[i] == b[i] by {
                            if i > 0 {
                                assert(x.take(k)[i - 1] == y.take(k)[i - 1]);
                            }
                        }
                    }
                    assert(a[k + 1] < b[k + 1]);
                }
            }
            if a.is_prefix_of(b) {
                assert(x =~= y.subrange(0, x.len() as int)) by {
                    assert forall|i: int| 0 <= i < x.len() implies x[i] == y[i] by {
                        assert(a[i + 1] == b.subrange(0, a.len() as int)[i + 1]);
                    }
                }
            }
            if exists|k: int|
                0 <= k < a.len() && k < b.len() && a.take(k) == b.take(k) && #[trigger] a[k]
                    < b[k] {
                let k = choose|k: int|
                    0 <= k < a.len() && k < b.len() && a.take(k) == b.take(k) && #[trigger] a[k]
                        < b[k];
                assert(x.take(k - 1) =~= y.take(k - 1)) by {
                    assert forall|i: int| 0 <= i < k - 1 implies x[i] == y[i] by {
                        assert(a.take(k)[i + 1] == b.take(k)[i + 1]);
                    }
                }
                assert(x[k - 1] < y[k - 1]);
            }
        } else {
            if a[0] < b[0] {
                assert(a.take(0) =~= b.take(0));
            }
            if a.is_prefix_of(b) {
                assert(a[0] == b.subrange(0, a.len() as int)[0]);
            }
            if exists|k: int|
                0 <= k < a.len() && k < b.len() && a.take(k) == b.take(k) && #[trigger] a[k]
                    < b[k] {
                let k = choose|k: int|
                    0 <= k < a.len() && k < b.len() && a.take(k) == b.take(k) && #[trigger] a[k]
                        < b[k];
                if k > 0 {
                    assert(a.take(k)[0] == b.take(k)[0]);
                }
            }
        }
    } else {
        if a.is_prefix_of(b) {
            assert(false);
        }
    }
}

/// Whether one of the entries is a directory called `name`.
pub open spec fn folder_among(entries: Seq<EntryView>, name: Seq<u8>) -> bool {
    exists|i: int|
        0 <= i < entries.len() && (#[trigger] entries[i]).is_dir && entries[i].name == name
}

/// Whether a listing holds a directory called `name`.
pub open spec fn has_folder(listing: Option<Seq<EntryView>>, name: Seq<u8>) -> bool {
    listing matches Some(entries) && folder_among(entries, name)
}

/// A listing holds a file if and only if one of its entries is a file of that name.
pub proof fn law_files_of_a_listing(listing: Option<Seq<EntryView>>, name: Seq<u8>)
    ensures
        holds_file(listing, name) <==> (listing matches Some(entries) && exists|i: int|
            0 <= i < entries.len() && (#[trigger] entries[i]).name == name && entries[i].is_file),
{
}

proof fn lemma_folder_names(entries: Seq<EntryView>, name: Seq<u8>)
    ensures
        folder_names(entries).contains(name) <==> folder_among(entries, name),
    decreases entries.len(),
{
    let all = folder_names(entries);
    if entries.len() > 0 {
        let shorter = entries.drop_last();
        let before = folder_names(shorter);
        lemma_folder_names(shorter, name);
        if all.contains(name) {
            let k = choose|k: int| 0 <= k < all.len() && all[k] == name;
            if k < before.len() {
                assert(before[k] == name);
                assert(before.contains(name));
                let i = choose|i: int|
                    0 <= i < shorter.len() && (#[trigger] shorter[i]).is_dir && shorter[i].name
                        == name;
                assert(entries[i] == shorter[i]);
            } else {
                assert(entries[entries.len() - 1].is_dir);
            }
        }
        if folder_among(entries, name) {
            let i = choose|i: int|
                0 <= i < entries.len() && (#[trigger] entries[i]).is_dir && entries[i].name == name;
            if i < shorter.len() {
                assert(shorter[i] == entries[i]);
                assert(before.contains(name));
                let k = choose|k: int| 0 <= k < before.len() && before[k] == name;
                assert(all[k] == name);
            } else {
                assert(all[all.len() - 1] == name);
            }
        }
    }
}

/// The directories of a listing are all and only those that it holds, in the order of
/// their names.
pub proof fn law_folders_in_order(listing: Option<Seq<EntryView>>, name: Seq<u8>)
    ensures
        sorted_folders(listing).contains(name) <==> has_folder(listing, name),
        forall|i: int, j: int|
            0 <= i <= j < sorted_folders(listing).len() ==> name_le(
                #[trigger] sorted_folders(listing)[i],
                #[trigger] sorted_folders(listing)[j],
            ),
{
    if let Some(entries) = listing {
        let all = folder_names(entries);
        let order = name_order();
        law_name_order_is_total();
        all.lemma_sort_by_ensures(order);
        let sorted = all.sort_by(order);
        lemma_folder_names(entries, name);
        all.to_multiset_ensures();
        sorted.to_multiset_ensures();
        assert(sorted.to_multiset() =~= all.to_multiset());
        assert(sorted.contains(name) <==> sorted.to_multiset().count(name) > 0);
        assert(all.contains(name) <==> all.to_multiset().count(name) > 0);
        assert(sorted_by(sorted, order));
        assert forall|i: int, j: int| 0 <= i <= j < sorted.len() implies name_le(
            #[trigger] sorted[i],
            #[trigger] sorted[j],
        ) by {
            if i < j {
                assert(order(sorted[i], sorted[j]));
            } else {
                assert(order(sorted[i], sorted[i]));
            }
        }
    }
}

/// The latest version is a directory of the listing, and none that it holds comes after
/// it. There is one wherever there are directories.
pub proof fn law_latest_is_the_last_folder(listing: Option<Seq<EntryView>>, name: Seq<u8>)
    ensures
        latest(listing) matches Some(version) ==> has_folder(listing, version),
        has_folder(listing, name) ==> (latest(listing) matches Some(version) && name_le(
            name,
            version,
        )),
{
    let sorted = sorted_folders(listing);
    law_folders_in_order(listing, name);
    if sorted.len() > 0 {
        law_folders_in_order(listing, sorted.last());
        assert(sorted[sorted.len() - 1] == sorted.last());
        assert(sorted.contains(sorted.last()));
    }
    if has_folder(listing, name) {
        let i = choose|i: int| 0 <= i < sorted.len() && sorted[i] == name;
        assert(name_le(sorted[i], sorted[sorted.len() - 1]));
    }
}

proof fn lemma_found_below(
    tree: spec_fn(Seq<Seq<u8>>) -> Option<Seq<EntryView>>,
    path: Seq<Seq<u8>>,
    folders: Seq<Seq<u8>>,
    name: Seq<u8>,
    depth: nat,
) -> (i: int)
    ensures
        0 <= i <= folders.len(),
        i < folders.len() ==> find_below(tree, path, folders, name, depth) is Some && find_below(
            tree,
            path,
            folders,
            name,
            depth,
        ) == find_in(tree, path.push(folders[i]), name, depth),
        i == folders.len() ==> find_below(tree, path, folders, name, depth) is None,
        forall|j: int|
            0 <= j < i ==> find_in(tree, path.push(#[trigger] folders[j]), name, depth) is None,
    decreases folders.len(),
{
    if folders.len() == 0 {
        0
    } else if find_in(tree, path.push(folders[0]), name, depth) is Some {
        0
    } else {
        let rest = folders.skip(1);
        let i = lemma_found_below(tree, path, rest, name, depth);
        if i < rest.len() {
            assert(rest[i] == folders[i + 1]);
        }
        assert forall|j: int| 0 <= j < i + 1 implies find_in(
            tree,
            path.push(#[trigger] folders[j]),
            name,
            depth,
        ) is None by {
            if j > 0 {
                assert(rest[j - 1] == folders[j]);
            }
        }
        i + 1
    }
}

/// A file in a directory is found there. Otherwise it is found in the first of the
/// directories inside, by name, in which it is found one level less deep, and not at
/// all where it is in none of them. Without levels left nothing is found.
pub proof fn law_order_of_the_search(
    tree: spec_fn(Seq<Seq<u8>>) -> Option<Seq<EntryView>>,
    path: Seq<Seq<u8>>,
    name: Seq<u8>,
    depth: nat,
)
    ensures
        find_in(tree, path, name, 0) is None,
        depth > 0 && holds_file(tree(path), name) ==> find_in(tree, path, name, depth) == Some(
            path.push(name),
        ),
        depth > 0 && !holds_file(tree(path), name) ==> match find_in(tree, path, name, depth) {
            Some(found) => exists|folder: Seq<u8>|
                {
                    &&& #[trigger] has_folder(tree(path), folder)
                    &&& find_in(tree, path.push(folder), name, (depth - 1) as nat) == Some(found)
                    &&& forall|other: Seq<u8>| #[trigger]
                        has_folder(tree(path), other) && name_le(other, folder) && other != folder
                            ==> find_in(tree, path.push(other), name, (depth - 1) as nat) is None
                },
            None => forall|other: Seq<u8>| #[trigger]
                has_folder(tree(path), other) ==> find_in(
                    tree,
                    path.push(other),
                    name,
                    (depth - 1) as nat,
                ) is None,
        },
{
    if depth > 0 && !holds_file(tree(path), name) {
        let folders = sorted_folders(tree(path));
        let less = (depth - 1) as nat;
        let i = lemma_found_below(tree, path, folders, name, less);
        law_name_order_is_total();
        if i < folders.len() {
            let folder = folders[i];
            law_folders_in_order(tree(path), folder);
            assert(folders.contains(folder));
            assert forall|other: Seq<u8>| #[trigger]
                has_folder(tree(path), other) && name_le(other, folder) && other
                    != folder implies find_in(tree, path.push(other), name, less) is None by {
                law_folders_in_order(tree(path), other);
                let j = choose|j: int| 0 <= j < folders.len() && folders[j] == other;
                if j >= i {
                    assert(name_le(folders[i], folders[j]));
                    let order = name_order();
                    assert(order(folder, other) && order(other, folder));
                    assert(antisymmetric(order));
                }
            }
        } else {
            assert forall|other: Seq<u8>| #[trigger]
                has_folder(tree(path), other) implies find_in(
                tree,
                path.push(other),
                name,
                less,
            ) is None by {
                law_folders_in_order(tree(path), other);
                let j = choose|j: int| 0 <= j < folders.len() && folders[j] == other;
                assert(find_in(tree, path.push(folders[j]), name, less) is None);
            }
        }
    }
}

proof fn lemma_stacked(path: Seq<Seq<u8>>, folders: Seq<Seq<u8>>, depth: nat, k: int)
    ensures
        stacked(path, folders, depth).len() == folders.len(),
        0 <= k < folders.len() ==> stacked(path, folders, depth)[folders.len() - 1 - k] == (
        FolderView { path: path.push(folders[k]), depth }),
    decreases folders.len(),
{
    if folders.len() > 0 {
        let rest = folders.skip(1);
        lemma_stacked(path, rest, depth, k - 1);
        if 0 < k < folders.len() {
            assert(rest[k - 1] == folders[k]);
        }
    }
}

/// After a directory those inside it are read, one level less deep, the first by name
/// first; none where no level is left.
pub proof fn law_directories_inside_come_next(
    folder: FolderView,
    listing: Option<Seq<EntryView>>,
    k: int,
)
    ensures
        folder.depth <= 1 ==> inside(folder, listing).len() == 0,
        folder.depth > 1 ==> inside(folder, listing).len() == sorted_folders(listing).len(),
        folder.depth > 1 && 0 <= k < sorted_folders(listing).len() ==> inside(
            folder,
            listing,
        )[sorted_folders(listing).len() - 1 - k] == (FolderView {
            path: folder.path.push(sorted_folders(listing)[k]),
            depth: (folder.depth - 1) as nat,
        }),
{
    if folder.depth > 1 {
        lemma_stacked(folder.path, sorted_folders(listing), (folder.depth - 1) as nat, k);
    }
}

/// The managed `probe-rs` is found in the latest version and at most four levels deep,
/// under the name that it has on the system.
pub proof fn law_managed_probe_rs(
    tree: spec_fn(Seq<Seq<u8>>) -> Option<Seq<EntryView>>,
    windows: bool,
)
    ensures
        exe_name(true) == "probe-rs.exe"@,
        exe_name(false) == "probe-rs"@,
        latest(tree(Seq::empty())) is None ==> managed_file(tree, windows) is None,
        latest(tree(Seq::empty())) matches Some(version) ==> managed_file(tree, windows)
            == match find_in(
            |path: Seq<Seq<u8>>| tree(seq![version] + path),
            Seq::empty(),
            encode_utf8(exe_name(windows)),
            4,
        ) {
            Some(path) => Some(seq![version] + path),
            None => None,
        },
{
    if let Some(version) = latest(tree(Seq::empty())) {
        assert(version_tree(tree, version) =~= (|path: Seq<Seq<u8>>|
            tree(seq![version] + path)));
    }
}

/// The value of a listing is made of the names and kinds of its entries.
pub proof fn law_values_of_listings(entries: Vec<Entry>, i: int)
    requires
        0 <= i < entries@.len(),
    ensures
        listing_view(None) is None,
        listing_view(Some(entries)) matches Some(list) && list.len() == entries@.len() && list[i]
            == (EntryView {
            name: entries@[i].name@,
            is_file: entries@[i].is_file,
            is_dir: entries@[i].is_dir,
        }),
{
}

/// The value of names and of directories is made of their bytes.
pub proof fn law_values_of_directories(names: Seq<Vec<u8>>, folders: Seq<Folder>, i: int)
    ensures
        names_view(names).len() == names.len(),
        0 <= i < names.len() ==> names_view(names)[i] == names[i]@,
        folders_view(folders).len() == folders.len(),
        0 <= i < folders.len() ==> folders_view(folders)[i].path == names_view(folders[i].path@)
            && folders_view(folders)[i].depth == folders[i].depth as nat,
{
}

/// Where the extension keeps its versions, how deep these are searched, and that names
/// are sorted by their order.
pub proof fn law_managed_directory(a: Seq<u8>, b: Seq<u8>)
    ensures
        MANAGED_DIR@ == ".yz61-embedded/tools/probe-rs"@,
        SEARCH_DEPTH == 4,
        name_order()(a, b) == name_le(a, b),
{
}

} // verus!
