use embedded_support::tools::{
    find_probe_rs, latest_version, managed_command, probe_exe, search_managed, which_or, Entry,
    FileSearch, HomeVariable, ManagedStart, ProbeStart, MANAGED_DIR, SEARCH_DEPTH,
};

fn name(s: &str) -> Vec<u8> {
    s.as_bytes().to_vec()
}

fn dir(s: &str) -> Entry {
    Entry { name: name(s), is_file: false, is_dir: true }
}

fn file(s: &str) -> Entry {
    Entry { name: name(s), is_file: true, is_dir: false }
}

/// Runs a search over directories that are given by their paths.
fn search(tree: &[(&str, Vec<&str>)], wanted: &str, depth: u8) -> (Option<String>, Vec<String>) {
    let mut read = vec![];
    let mut search = FileSearch::find_file(wanted, depth);
    while let Some(folder) = search.next_folder() {
        let parts: Vec<String> =
            folder.path.iter().map(|n| String::from_utf8(n.clone()).unwrap()).collect();
        let path = parts.join("/");
        let listing = tree.iter().find(|(p, _)| *p == path).map(|(_, entries)| {
            entries
                .iter()
                .map(|e| match e.strip_suffix('/') {
                    Some(d) => dir(d),
                    None => file(e),
                })
                .collect::<Vec<Entry>>()
        });
        read.push(path);
        if let Some(found) = search.visit(&folder, &listing) {
            let found: Vec<String> =
                found.into_iter().map(|n| String::from_utf8(n).unwrap()).collect();
            return (Some(found.join("/")), read);
        }
    }
    (None, read)
}

#[test]
fn a_tool_that_is_not_found_keeps_its_name() {
    assert_eq!(which_or("cmake", Some("/usr/bin/cmake".to_string())), "/usr/bin/cmake");
    assert_eq!(which_or("cmake", None), "cmake");
}

#[test]
fn the_search_for_the_probe_starts() {
    let path = "/bin/probe-rs".to_string();
    assert_eq!(find_probe_rs(Some(path.clone()), true, true), ProbeStart::Ready(path));
    assert_eq!(
        find_probe_rs(None, true, true),
        ProbeStart::ListVersions(HomeVariable::UserProfile)
    );
    assert_eq!(find_probe_rs(None, false, true), ProbeStart::ListVersions(HomeVariable::Home));
    assert_eq!(find_probe_rs(None, false, false), ProbeStart::Ready("probe-rs".to_string()));
    assert_eq!(probe_exe(true), "probe-rs.exe");
    assert_eq!(probe_exe(false), "probe-rs");
    assert_eq!(MANAGED_DIR, ".yz61-embedded/tools/probe-rs");
    assert_eq!(SEARCH_DEPTH, 4);
}

#[test]
fn the_latest_version_is_the_last_directory() {
    let listing = Some(vec![dir("0.24.0"), file("9.9"), dir("0.27.0"), dir("0.25.1")]);
    assert_eq!(latest_version(&listing), Some(name("0.27.0")));
    // By bytes, not by numbers.
    assert_eq!(latest_version(&Some(vec![dir("0.9.0"), dir("0.10.0")])), Some(name("0.9.0")));
    assert_eq!(latest_version(&Some(vec![file("x")])), None);
    assert_eq!(latest_version(&Some(vec![])), None);
    assert_eq!(latest_version(&None), None);
}

#[test]
fn a_file_comes_before_those_further_down() {
    let tree = [("", vec!["a/", "probe-rs"]), ("a", vec!["probe-rs"])];
    assert_eq!(search(&tree, "probe-rs", 4), (Some("probe-rs".to_string()), vec!["".to_string()]));
}

#[test]
fn directories_are_read_in_order_and_in_depth() {
    let tree = [
        ("", vec!["c/", "a/", "b/", "readme"]),
        ("a", vec!["z/"]),
        ("a/z", vec![]),
        ("b", vec!["y/", "x/"]),
        ("b/y", vec!["probe-rs"]),
        ("c", vec!["probe-rs"]),
    ];
    let (found, read) = search(&tree, "probe-rs", 4);
    assert_eq!(found, Some("b/y/probe-rs".to_string()));
    // "b/x" cannot be read, and is passed over.
    assert_eq!(read, ["", "a", "a/z", "b", "b/x", "b/y"]);
}

#[test]
fn a_directory_of_that_name_is_not_the_file() {
    let tree = [("", vec!["probe-rs/"]), ("probe-rs", vec!["probe-rs"])];
    assert_eq!(search(&tree, "probe-rs", 2).0, Some("probe-rs/probe-rs".to_string()));
}

#[test]
fn the_search_ends_at_its_depth() {
    let tree = [
        ("", vec!["1/"]),
        ("1", vec!["2/"]),
        ("1/2", vec!["3/"]),
        ("1/2/3", vec!["probe-rs", "4/"]),
        ("1/2/3/4", vec!["deep"]),
    ];
    assert_eq!(search(&tree, "probe-rs", 4).0, Some("1/2/3/probe-rs".to_string()));
    let (found, read) = search(&tree, "probe-rs", 3);
    assert_eq!(found, None);
    assert_eq!(read, ["", "1", "1/2"]);
    assert_eq!(search(&tree, "deep", 4).0, None);
    assert_eq!(search(&tree, "deep", 5).0, Some("1/2/3/4/deep".to_string()));
    assert_eq!(search(&tree, "probe-rs", 0), (None, vec![]));
}

#[test]
fn the_latest_version_is_searched() {
    let listing = Some(vec![dir("0.24.0"), dir("0.27.0"), file("0.99.0")]);
    let (version, mut started) = match search_managed(&listing, false) {
        ManagedStart::Search { version, search } => (version, search),
        ManagedStart::Ready(command) => panic!("{command}"),
    };
    assert_eq!(version, name("0.27.0"));
    assert_eq!(started, FileSearch::find_file("probe-rs", 4));
    let folder = started.next_folder().unwrap();
    assert_eq!((folder.path.len(), folder.depth), (0, 4));
    assert_eq!(
        started.visit(&folder, &Some(vec![file("probe-rs")])),
        Some(vec![name("probe-rs")])
    );
    assert_eq!(
        search_managed(&listing, true),
        ManagedStart::Search {
            version: name("0.27.0"),
            search: FileSearch::find_file("probe-rs.exe", 4),
        }
    );
}

#[test]
fn without_a_managed_file_the_bare_name_has_to_do() {
    let bare = || ManagedStart::Ready("probe-rs".to_string());
    assert_eq!(search_managed(&None, false), bare());
    assert_eq!(search_managed(&Some(vec![]), true), bare());
    assert_eq!(search_managed(&Some(vec![file("0.27.0")]), false), bare());
    assert_eq!(managed_command(None), "probe-rs");
    assert_eq!(managed_command(Some("/m/0.27.0/probe-rs".to_string())), "/m/0.27.0/probe-rs");
}
