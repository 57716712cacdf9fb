//! Where targets are built, said of paths as they are mostly written.

use crate::json::JsonView;
use crate::laws::presets::law_dir_without_variable;
use crate::paths::{
    below, law_plain_paths_are_stripped_as_text, lemma_after_slash_lies_inside, lies_inside,
    lies_outside, ordinary, plain_path, two_separators, with_slash, without_final_slashes, without_outer_slashes,
};
use crate::presets::{
    build_dir, expanded, is_target_of, law_outside_dir_is_kept, law_source_dir_is_stripped,
    may_be_rest, target, PresetView, ProjectRoot,
};
use crate::text::{occurs, occurs_at};
use vstd::prelude::*;

verus! {

/// Whether a path is made of names with single slashes between them, perhaps from the
/// root, of which none starts with a dot or holds what is special on some system or to
/// CMake.
pub open spec fn simple_path(path: Seq<char>) -> bool {
    &&& path.len() > 0
    &&& path.last() != '/'
    &&& forall|i: int|
        0 <= i < path.len() ==> {
            &&& #[trigger] path[i] != '$'
            &&& path[i] != '\\'
            &&& path[i] != ':'
            &&& path[i] == '.' ==> i > 0 && path[i - 1] != '/'
            &&& path[i] == '/' ==> path[i + 1] != '/'
        }
}

/// Whether `root` is a simple path, or one on a drive, with a backslash after the drive
/// and without a variable of CMake.
pub open spec fn simple_root(root: Seq<char>) -> bool {
    ||| simple_path(root)
    ||| {
        &&& root.len() > 3
        &&& root[0] != '$' && root[0] != '/' && root[0] != '\\'
        &&& root[1] == ':'
        &&& root[2] == '\\'
        &&& root.last() != ':'
        &&& forall|i: int| 0 <= i < root.len() ==> #[trigger] root[i] != '$'
    }
}

proof fn lemma_simple_is_plain(path: Seq<char>)
    requires
        simple_path(path),
    ensures
        plain_path(path),
        ordinary(path),
        without_final_slashes(path) == path,
        !two_separators(path.push('/')),
{
    assert(path[path.len() - 1] == path.last());
    assert(path[0] != '\\');
    if path.len() > 1 {
        assert(path[1] != '\\' && path[1] != ':');
    }
    if path.len() == 1 {
        assert(path[0] == path.last());
    }
}

proof fn lemma_no_dollar(s: Seq<char>)
    requires
        forall|i: int| 0 <= i < s.len() ==> #[trigger] s[i] != '$',
    ensures
        !occurs(s, "${sourceDir}"@),
        !occurs(s, "${sourceDir}/"@),
{
    reveal_strlit("${sourceDir}");
    reveal_strlit("${sourceDir}/");
    if occurs(s, "${sourceDir}"@) {
        let at = choose|at: int| occurs_at(s, "${sourceDir}"@, at);
        assert(s.subrange(at, at + "${sourceDir}"@.len())[0] == s[at]);
    }
    if occurs(s, "${sourceDir}/"@) {
        let at = choose|at: int| occurs_at(s, "${sourceDir}/"@, at);
        assert(s.subrange(at, at + "${sourceDir}/"@.len())[0] == s[at]);
    }
}

/// A target whose build directory is given as `${sourceDir}/<inner>` is built in
/// `<inner>`, seen from the project, and its program lies there.
pub proof fn law_built_inside_the_project(
    entry: JsonView,
    project: Option<Seq<char>>,
    root: ProjectRoot,
    inner: Seq<char>,
    found: PresetView,
)
    requires
        is_target_of(entry, project, root, found),
        entry.get("binaryDir"@) == Some(JsonView::Text("${sourceDir}/"@ + inner)),
        root.exact,
        simple_root(root.text@),
        simple_path(inner),
        inner[0] != '/',
    ensures
        found.build_dir_rel == inner,
        found.elf_rel == inner + "/"@ + (match project {
            Some(name) => name,
            None => "fw"@,
        }) + ".elf"@,
{
    reveal_strlit("/");
    let base = root.text@;
    lemma_simple_is_plain(inner);
    lemma_no_dollar(inner);
    let full = base + "/"@ + inner;
    assert forall|i: int| 0 <= i < full.len() implies #[trigger] full[i] != '$' by {
        if i < base.len() {
            assert(full[i] == base[i]);
        } else if i > base.len() {
            assert(full[i] == inner[i - base.len() - 1]);
        }
    }
    lemma_no_dollar(full);
    assert(base + "/"@ =~= base.push('/'));
    if simple_path(base) {
        lemma_simple_is_plain(base);
    }
    assert(ordinary(base));
    assert(without_outer_slashes(inner) == inner);
    law_source_dir_is_stripped(entry, project, root, inner, found);
}

/// A target whose build directory is a simple path that is neither the project nor
/// below it is built there.
pub proof fn law_built_outside_the_project(
    entry: JsonView,
    project: Option<Seq<char>>,
    root: ProjectRoot,
    dir: Seq<char>,
    found: PresetView,
)
    requires
        is_target_of(entry, project, root, found),
        entry.get("binaryDir"@) == Some(JsonView::Text(dir)),
        simple_path(root.text@),
        simple_path(dir),
        dir != root.text@,
        !(root.text@ + "/"@).is_prefix_of(dir),
    ensures
        found.build_dir_rel == dir,
{
    reveal_strlit("/");
    let base = root.text@;
    lemma_simple_is_plain(base);
    lemma_simple_is_plain(dir);
    lemma_no_dollar(dir);
    law_dir_without_variable(dir, base);
    assert(base + "/"@ =~= base.push('/'));
    assert(with_slash(base) == base.push('/'));
    assert(below(dir, base) is None);
    let rest = choose|rest: Option<Seq<char>>| #[trigger]
        may_be_rest(entry, root, rest) && found == target(
            entry,
            project,
            build_dir(entry, root, rest),
        );
    if root.exact {
        law_plain_paths_are_stripped_as_text(dir, base, rest);
    }
}

/// A target whose build directory is a simple path is built there, where the project
/// lies on a drive.
pub proof fn law_built_outside_the_drive(
    entry: JsonView,
    project: Option<Seq<char>>,
    root: ProjectRoot,
    dir: Seq<char>,
    found: PresetView,
)
    requires
        is_target_of(entry, project, root, found),
        entry.get("binaryDir"@) == Some(JsonView::Text(dir)),
        simple_root(root.text@),
        root.text@.len() > 1 && root.text@[1] == ':',
        simple_path(dir),
    ensures
        found.build_dir_rel == dir,
{
    let base = root.text@;
    lemma_no_dollar(dir);
    law_dir_without_variable(dir, base);
    assert(base.contains(base[1]));
    if dir.contains(':') {
        let i = choose|i: int| 0 <= i < dir.len() && dir[i] == ':';
        assert(dir[i] != ':');
    }
    assert(lies_outside(dir, base));
    law_outside_dir_is_kept(entry, project, root, dir, found);
}

/// A target whose build directory is a simple path below the project is built in what
/// follows the project directory.
pub proof fn law_absolute_dir_inside_the_project(
    entry: JsonView,
    project: Option<Seq<char>>,
    root: ProjectRoot,
    inner: Seq<char>,
    found: PresetView,
)
    requires
        is_target_of(entry, project, root, found),
        entry.get("binaryDir"@) == Some(JsonView::Text(root.text@ + "/"@ + inner)),
        root.exact,
        simple_path(root.text@),
        simple_path(inner),
        inner[0] != '/',
    ensures
        found.build_dir_rel == inner,
{
    reveal_strlit("/");
    let base = root.text@;
    let dir = base + "/"@ + inner;
    assert forall|i: int| 0 <= i < dir.len() implies #[trigger] dir[i] != '$' by {
        if i < base.len() {
            assert(dir[i] == base[i]);
        } else if i > base.len() {
            assert(dir[i] == inner[i - base.len() - 1]);
        }
    }
    lemma_no_dollar(dir);
    law_dir_without_variable(dir, base);
    lemma_simple_is_plain(base);
    lemma_simple_is_plain(inner);
    assert(without_outer_slashes(inner) == inner);
    lemma_after_slash_lies_inside(base, inner);
    assert(base.push('/') + inner =~= dir);
    let rest = choose|rest: Option<Seq<char>>| #[trigger]
        may_be_rest(entry, root, rest) && found == target(
            entry,
            project,
            build_dir(entry, root, rest),
        );
    assert(lies_inside(dir, base, inner));
    assert(rest == Some(inner));
}

/// Where the path of the project is no valid Unicode, build directories are taken as
/// they are given, with `${sourceDir}` replaced.
pub proof fn law_dirs_of_an_inexact_root(
    entry: JsonView,
    project: Option<Seq<char>>,
    root: ProjectRoot,
    dir: Seq<char>,
    found: PresetView,
)
    requires
        is_target_of(entry, project, root, found),
        entry.get("binaryDir"@) == Some(JsonView::Text(dir)),
        !root.exact,
    ensures
        found.build_dir_rel == expanded(dir, root.text@),
{
}

} // verus!
