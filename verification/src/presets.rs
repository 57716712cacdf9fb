//! The build targets of a project, found in its `CMakePresets.json`.

use crate::chip::{can_cut, chip_name, cuts_cleanly, infer_chip};
use crate::json::{items_view, Json, JsonView};
use crate::json_text::{json_parsed, parse_json};
use crate::paths::{
    continues, drive_relative, lemma_after_slash_lies_inside, lies_inside, lies_outside,
    may_strip_to, ordinary, path_names, plain_path, splits_into, strip_base, two_separators,
    without_outer_slashes,
};
use crate::project::{project_name, project_title};
use crate::text::{
    chars_of, concat2, lemma_occurs_at_skip, lemma_replace_absent, occurs, occurs_at, replace_all,
    replace_chars, string_of,
};
use vstd::prelude::*;

verus! {

/// A build target.
#[derive(Debug, PartialEq, Eq)]
pub struct Preset {
    /// The name of the CMake preset.
    pub name: String,
    /// Where it is built, from the project directory.
    pub build_dir_rel: String,
    /// The chip that it is built for, if it is known.
    pub chip: Option<String>,
    /// The program that it builds, from the project directory.
    pub elf_rel: String,
}

/// The mathematical value of a [`Preset`].
pub struct PresetView {
    pub name: Seq<char>,
    pub build_dir_rel: Seq<char>,
    pub chip: Option<Seq<char>>,
    pub elf_rel: Seq<char>,
}

/// The text of a string that may be missing.
pub open spec fn optional_text(s: Option<String>) -> Option<Seq<char>> {
    match s {
        Some(text) => Some(text@),
        None => None,
    }
}

impl View for Preset {
    type V = PresetView;

    open spec fn view(&self) -> PresetView {
        PresetView {
            name: self.name@,
            build_dir_rel: self.build_dir_rel@,
            chip: optional_text(self.chip),
            elf_rel: self.elf_rel@,
        }
    }
}

/// The values of some targets.
pub open spec fn presets_view(presets: Seq<Preset>) -> Seq<PresetView> {
    presets.map_values(|p: Preset| p@)
}

/// The directory of a project.
#[derive(Debug, PartialEq, Eq)]
pub struct ProjectRoot {
    /// Its path, as text.
    pub text: String,
    /// Whether the text is the path itself. It is not where the path is no valid
    /// Unicode, and the text shows that by replacement characters.
    pub exact: bool,
}

/// The presets that the document lists.
pub open spec fn listed(doc: JsonView) -> Seq<JsonView> {
    match doc.get("configurePresets"@) {
        Some(list) => match list.as_array() {
            Some(items) => items,
            None => Seq::empty(),
        },
        None => Seq::empty(),
    }
}

/// Whether a listed preset is a target: it has a name and is not hidden.
pub open spec fn is_target(entry: JsonView) -> bool {
    &&& !(entry.get("hidden"@) matches Some(hidden) && hidden.as_bool() == Some(true))
    &&& entry.get_str("name"@) is Some
}

/// The entries of the document that are targets, in order.
pub open spec fn targets(items: Seq<JsonView>) -> Seq<JsonView>
    decreases items.len(),
{
    if items.len() == 0 {
        Seq::empty()
    } else if is_target(items.last()) {
        targets(items.drop_last()).push(items.last())
    } else {
        targets(items.drop_last())
    }
}

/// The part name that the cache variables of an entry give: that of `LY_MCU`,
/// or of `CHIP` where there is no `LY_MCU`.
pub open spec fn part_name(entry: JsonView) -> Option<Seq<char>> {
    match entry.get("cacheVariables"@) {
        Some(variables) => match variables.get("LY_MCU"@) {
            Some(value) => value.as_str(),
            None => variables.get_str("CHIP"@),
        },
        None => None,
    }
}

/// The chip of an entry.
pub open spec fn chip_of(entry: JsonView) -> Option<Seq<char>> {
    match part_name(entry) {
        Some(raw) => chip_name(raw),
        None => None,
    }
}

/// Whether the chip codes can be cut out of the part name of every target.
pub open spec fn parts_cut_cleanly(items: Seq<JsonView>) -> bool {
    forall|i: int|
        0 <= i < targets(items).len() ==> (part_name(#[trigger] targets(items)[i]) matches Some(
            raw,
        ) ==> cuts_cleanly(raw))
}

/// A build directory with `${sourceDir}` replaced by the project directory.
pub open spec fn expanded(dir: Seq<char>, root: Seq<char>) -> Seq<char> {
    replace_all(replace_all(dir, "${sourceDir}"@, root), "${sourceDir}/"@, ""@)
}

/// The build directory of an entry, where `rest` is what stripping the project
/// directory from it gave.
pub open spec fn build_dir(
    entry: JsonView,
    root: ProjectRoot,
    rest: Option<Seq<char>>,
) -> Seq<char> {
    match entry.get_str("binaryDir"@) {
        Some(dir) => match rest {
            Some(inside) => inside,
            None => expanded(dir, root.text@),
        },
        None => "build/"@ + entry.get_str("name"@)->0,
    }
}

/// Whether `rest` is what stripping the project directory from the build
/// directory of an entry may give.
pub open spec fn may_be_rest(entry: JsonView, root: ProjectRoot, rest: Option<Seq<char>>) -> bool {
    match entry.get_str("binaryDir"@) {
        Some(dir) => if root.exact {
            may_strip_to(expanded(dir, root.text@), root.text@, rest)
        } else {
            rest is None
        },
        None => rest is None,
    }
}

/// The program that is built in `dir`.
pub open spec fn elf_path(dir: Seq<char>, project: Option<Seq<char>>) -> Seq<char> {
    let title = match project {
        Some(name) => name,
        None => "fw"@,
    };
    dir + "/"@ + title + ".elf"@
}

/// The target that an entry is, built in `dir`.
pub open spec fn target(
    entry: JsonView,
    project: Option<Seq<char>>,
    dir: Seq<char>,
) -> PresetView {
    PresetView {
        name: entry.get_str("name"@)->0,
        build_dir_rel: dir,
        chip: chip_of(entry),
        elf_rel: elf_path(dir, project),
    }
}

/// Whether `preset` is the target that an entry is.
pub open spec fn is_target_of(
    entry: JsonView,
    project: Option<Seq<char>>,
    root: ProjectRoot,
    preset: PresetView,
) -> bool {
    exists|rest: Option<Seq<char>>| #[trigger]
        may_be_rest(entry, root, rest) && preset == target(
            entry,
            project,
            build_dir(entry, root, rest),
        )
}

/// Whether `presets` are the targets among `items`, in order.
pub open spec fn are_targets_of(
    items: Seq<JsonView>,
    project: Option<Seq<char>>,
    root: ProjectRoot,
    presets: Seq<PresetView>,
) -> bool {
    &&& presets.len() == targets(items).len()
    &&& forall|i: int|
        0 <= i < presets.len() ==> is_target_of(
            targets(items)[i],
            project,
            root,
            #[trigger] presets[i],
        )
}

/// The presets that the text of `CMakePresets.json` lists.
pub open spec fn listed_in(text: Option<String>) -> Seq<JsonView> {
    match text {
        Some(t) => match json_parsed(t@) {
            Some(doc) => listed(doc),
            None => Seq::empty(),
        },
        None => Seq::empty(),
    }
}

/// A build directory with `${sourceDir}` replaced by the project directory.
pub fn expand_dir(dir: &str, root: &str) -> (full: String)
    ensures
        full@ == expanded(dir@, root@),
{
    let variable = chars_of("${sourceDir}");
    let prefix = chars_of("${sourceDir}/");
    proof {
        reveal_strlit("${sourceDir}");
        reveal_strlit("${sourceDir}/");
    }
    let once = replace_chars(&chars_of(dir), &variable, &chars_of(root));
    string_of(&replace_chars(&once, &prefix, &chars_of("")))
}

/// Whether a listed preset is a target.
fn target_entry(entry: &Json) -> (yes: bool)
    ensures
        yes == is_target(entry@),
{
    let hidden = match entry.get("hidden") {
        Some(value) => match value.as_bool() {
            Some(b) => b,
            None => false,
        },
        None => false,
    };
    !hidden && entry.get_str("name").is_some()
}

/// The part name that the cache variables of an entry give.
fn find_part_name(entry: &Json) -> (raw: Option<&str>)
    ensures
        match raw {
            Some(r) => part_name(entry@) == Some(r@),
            None => part_name(entry@) is None,
        },
{
    match entry.get("cacheVariables") {
        Some(variables) => match variables.get("LY_MCU") {
            Some(value) => value.as_str(),
            None => variables.get_str("CHIP"),
        },
        None => None,
    }
}

/// What stripping the project directory from the build directory of an entry
/// gives.
fn strip_root(entry: &Json, root: &ProjectRoot) -> (rest: Option<String>)
    ensures
        may_be_rest(entry@, *root, optional_text(rest)),
{
    match entry.get_str("binaryDir") {
        Some(dir) => if root.exact {
            strip_base(expand_dir(dir, root.text.as_str()).as_str(), root.text.as_str())
        } else {
            None
        },
        None => None,
    }
}

/// The build directory of an entry, where `rest` is what stripping the project
/// directory from it gave: the part inside the project if there is one, the
/// whole directory if there is none, and `build/<name>` where the entry does not
/// say.
pub fn choose_build_dir(entry: &Json, root: &ProjectRoot, rest: Option<String>) -> (dir: String)
    requires
        is_target(entry@),
    ensures
        dir@ == build_dir(entry@, *root, optional_text(rest)),
{
    match entry.get_str("binaryDir") {
        Some(dir) => match rest {
            Some(inside) => inside,
            None => expand_dir(dir, root.text.as_str()),
        },
        None => match entry.get_str("name") {
            Some(name) => concat2("build/", name),
            None => String::new(),
        },
    }
}

/// The target that an entry is, built in `dir`.
pub fn make_target(entry: &Json, project: &Option<String>, dir: String) -> (preset: Preset)
    requires
        is_target(entry@),
        part_name(entry@) matches Some(raw) ==> cuts_cleanly(raw),
    ensures
        preset@ == target(entry@, optional_text(*project), dir@),
{
    let name = match entry.get_str("name") {
        Some(name) => name.to_owned(),
        None => String::new(),
    };
    let chip = match find_part_name(entry) {
        Some(raw) => infer_chip(raw),
        None => None,
    };
    let mut elf = concat2(dir.as_str(), "/");
    match project {
        Some(title) => elf.append(title.as_str()),
        None => elf.append("fw"),
    }
    elf.append(".elf");
    Preset { name, build_dir_rel: dir, chip, elf_rel: elf }
}

/// The presets that the document lists.
fn list_of(doc: &Json) -> (items: Option<&Vec<Json>>)
    ensures
        match items {
            Some(v) => listed(doc@) == items_view(v@),
            None => listed(doc@) == Seq::<JsonView>::empty(),
        },
{
    match doc.get("configurePresets") {
        Some(list) => list.as_array(),
        None => None,
    }
}

proof fn lemma_targets_step(items: Seq<JsonView>, n: int)
    requires
        0 <= n < items.len(),
    ensures
        targets(items.take(n + 1)) == if is_target(items[n]) {
            targets(items.take(n)).push(items[n])
        } else {
            targets(items.take(n))
        },
{
    assert(items.take(n + 1).drop_last() =~= items.take(n));
}

proof fn lemma_targets_prefix(items: Seq<JsonView>, n: int)
    requires
        0 <= n <= items.len(),
    ensures
        targets(items.take(n)).len() <= targets(items).len(),
        forall|i: int|
            0 <= i < targets(items.take(n)).len() ==> #[trigger] targets(items.take(n))[i]
                == targets(items)[i],
    decreases items.len() - n,
{
    if n == items.len() {
        assert(items.take(n) =~= items);
    } else {
        lemma_targets_step(items, n);
        lemma_targets_prefix(items, n + 1);
        assert forall|i: int| 0 <= i < targets(items.take(n)).len() implies #[trigger] targets(
            items.take(n),
        )[i] == targets(items)[i] by {
            assert(targets(items.take(n + 1))[i] == targets(items.take(n))[i]);
        }
    }
}

/// Whether the chip codes can be cut out of the part name of every target.
pub fn can_cut_parts(doc: &Json) -> (clean: bool)
    ensures
        clean == parts_cut_cleanly(listed(doc@)),
{
    let items = match list_of(doc) {
        Some(items) => items,
        None => {
            return true;
        },
    };
    let ghost all = items_view(items@);
    for i in 0..items.len()
        invariant
            all == items_view(items@),
            all == listed(doc@),
            parts_cut_cleanly(all.take(i as int)),
    {
        proof {
            lemma_targets_step(all, i as int);
            lemma_targets_prefix(all, i + 1);
        }
        assert(all[i as int] == items@[i as int]@);
        if target_entry(&items[i]) {
            if let Some(raw) = find_part_name(&items[i]) {
                if !can_cut(raw) {
                    let ghost last = targets(all.take(i + 1)).len() - 1;
                    assert(targets(all.take(i + 1))[last] == all[i as int]);
                    assert(targets(all)[last] == all[i as int]);
                    return false;
                }
            }
        }
    }
    assert(all.take(all.len() as int) =~= all);
    true
}

/// The targets that the document lists: those of its presets that have a name
/// and are not hidden.
pub fn presets_in(doc: &Json, project: &Option<String>, root: &ProjectRoot) -> (presets: Vec<
    Preset,
>)
    requires
        parts_cut_cleanly(listed(doc@)),
    ensures
        are_targets_of(
            listed(doc@),
            optional_text(*project),
            *root,
            presets_view(presets@),
        ),
{
    let mut presets: Vec<Preset> = Vec::new();
    let items = match list_of(doc) {
        Some(items) => items,
        None => {
            return presets;
        },
    };
    let ghost all = items_view(items@);
    let ghost title = optional_text(*project);
    for i in 0..items.len()
        invariant
            all == items_view(items@),
            all == listed(doc@),
            title == optional_text(*project),
            parts_cut_cleanly(all),
            are_targets_of(all.take(i as int), title, *root, presets_view(presets@)),
    {
        proof {
            lemma_targets_step(all, i as int);
            lemma_targets_prefix(all, i + 1);
        }
        assert(all[i as int] == items@[i as int]@);
        if target_entry(&items[i]) {
            let ghost last = targets(all.take(i + 1)).len() - 1;
            assert(targets(all.take(i + 1))[last] == all[i as int]);
            assert(targets(all)[last] == all[i as int]);
            let ghost done = presets_view(presets@);
            let rest = strip_root(&items[i], root);
            let ghost seen = optional_text(rest);
            let dir = choose_build_dir(&items[i], root, rest);
            let preset = make_target(&items[i], project, dir);
            assert(may_be_rest(all[i as int], *root, seen));
            assert(is_target_of(all[i as int], title, *root, preset@));
            presets.push(preset);
            assert(presets_view(presets@) =~= done.push(preset@));
        }
    }
    assert(all.take(all.len() as int) =~= all);
    presets
}

/// The targets that the text of `CMakePresets.json` lists. There are none where
/// it could not be read or is no JSON document. The result is `None` where the
/// chip codes cannot be cut out of the part name of some target.
pub fn discover_presets(
    text: &Option<String>,
    cmake_lists: &Option<String>,
    root: &ProjectRoot,
) -> (presets: Option<Vec<Preset>>)
    ensures
        presets is Some <==> parts_cut_cleanly(listed_in(*text)),
        presets matches Some(list) ==> are_targets_of(
            listed_in(*text),
            project_title(*cmake_lists),
            *root,
            presets_view(list@),
        ),
{
    let none: Vec<Preset> = Vec::new();
    let text = match text {
        Some(text) => text,
        None => {
            return Some(none);
        },
    };
    match parse_json(text.as_str()) {
        Some(doc) => {
            let project = project_name(cmake_lists);
            if can_cut_parts(&doc) {
                Some(presets_in(&doc, &project, root))
            } else {
                None
            }
        },
        None => Some(none),
    }
}

proof fn lemma_expand_source_dir(root: Seq<char>, tail: Seq<char>)
    requires
        !occurs(tail, "${sourceDir}"@),
        !occurs(root + "/"@ + tail, "${sourceDir}/"@),
    ensures
        expanded("${sourceDir}/"@ + tail, root) == root + "/"@ + tail,
{
    reveal_strlit("${sourceDir}");
    reveal_strlit("${sourceDir}/");
    reveal_strlit("/");
    let variable = "${sourceDir}"@;
    let dir = "${sourceDir}/"@ + tail;
    let rest = "/"@ + tail;
    assert("${sourceDir}/"@ =~= variable + "/"@);
    assert(dir.subrange(0, variable.len() as int) =~= variable);
    assert(dir.skip(variable.len() as int) =~= rest);
    assert(rest.skip(1) =~= tail);
    if occurs(rest, variable) {
        let at = choose|at: int| occurs_at(rest, variable, at);
        if at == 0 {
            assert(rest.subrange(0, variable.len() as int)[0] == '/');
            assert(variable[0] == '$');
        } else {
            lemma_occurs_at_skip(rest, variable, 1, at - 1);
            assert(occurs_at(tail, variable, at - 1));
        }
    }
    lemma_replace_absent(rest, variable, root);
    let once = replace_all(dir, variable, root);
    assert(once =~= root + "/"@ + tail);
    lemma_replace_absent(once, "${sourceDir}/"@, ""@);
}

/// A build directory that is given from `${sourceDir}` on is that directory from
/// the project directory on, without the slashes at either end. This holds where
/// the directory is written plainly and neither it nor the path of the project
/// holds the variable again, for every project but one at a bare root or drive, at
/// the current directory of a drive, or in the network.
pub proof fn law_source_dir_is_stripped(
    entry: JsonView,
    project: Option<Seq<char>>,
    root: ProjectRoot,
    tail: Seq<char>,
    preset: PresetView,
)
    requires
        is_target_of(entry, project, root, preset),
        entry.get_str("binaryDir"@) == Some("${sourceDir}/"@ + tail),
        root.exact,
        ordinary(root.text@),
        !two_separators(root.text@ + "/"@),
        plain_path(without_outer_slashes(tail)),
        !occurs(tail, "${sourceDir}"@),
        !occurs(root.text@ + "/"@ + tail, "${sourceDir}/"@),
    ensures
        preset.build_dir_rel == without_outer_slashes(tail),
        preset.elf_rel == elf_path(without_outer_slashes(tail), project),
{
    reveal_strlit("/");
    let base = root.text@;
    lemma_expand_source_dir(base, tail);
    assert(base + "/"@ =~= base.push('/'));
    lemma_after_slash_lies_inside(base, tail);
    let rest = choose|rest: Option<Seq<char>>| #[trigger]
        may_be_rest(entry, root, rest) && preset == target(
            entry,
            project,
            build_dir(entry, root, rest),
        );
    assert(rest == Some(without_outer_slashes(tail)));
}

/// A target that is built in `${sourceDir}` itself is built in the project
/// directory, whose path from there is empty, unless the project may start from the
/// current directory of a drive.
pub proof fn law_source_dir_itself_is_empty(
    entry: JsonView,
    project: Option<Seq<char>>,
    root: ProjectRoot,
    preset: PresetView,
)
    requires
        is_target_of(entry, project, root, preset),
        entry.get_str("binaryDir"@) == Some("${sourceDir}"@),
        root.exact,
        !drive_relative(root.text@),
        !occurs(root.text@, "${sourceDir}/"@),
    ensures
        preset.build_dir_rel.len() == 0,
{
    reveal_strlit("${sourceDir}");
    let variable = "${sourceDir}"@;
    let base = root.text@;
    assert(variable.subrange(0, variable.len() as int) =~= variable);
    assert(variable.skip(variable.len() as int) =~= Seq::empty());
    assert(replace_all(variable.skip(variable.len() as int), variable, base).len() == 0);
    assert(replace_all(variable, variable, base) =~= base);
    lemma_replace_absent(base, "${sourceDir}/"@, ""@);
    let rest = choose|rest: Option<Seq<char>>| #[trigger]
        may_be_rest(entry, root, rest) && preset == target(
            entry,
            project,
            build_dir(entry, root, rest),
        );
    assert(lies_inside(base, base, Seq::empty()));
}

/// A build directory below the project leads through the same names from the
/// project directory on, also where it is not written plainly.
pub proof fn law_inner_dir_keeps_its_names(
    entry: JsonView,
    project: Option<Seq<char>>,
    root: ProjectRoot,
    dir: Seq<char>,
    tail: Seq<char>,
    preset: PresetView,
)
    requires
        is_target_of(entry, project, root, preset),
        entry.get_str("binaryDir"@) == Some(dir),
        root.exact,
        continues(expanded(dir, root.text@), root.text@, tail),
    ensures
        path_names(preset.build_dir_rel) == path_names(tail),
        preset.elf_rel == elf_path(preset.build_dir_rel, project),
{
}

/// A build directory is kept as it is, or leads through the names that follow those
/// of the project directory, also where backslashes separate names or the project
/// is the root.
pub proof fn law_build_dir_is_kept_or_inside(
    entry: JsonView,
    project: Option<Seq<char>>,
    root: ProjectRoot,
    dir: Seq<char>,
    preset: PresetView,
)
    requires
        is_target_of(entry, project, root, preset),
        entry.get_str("binaryDir"@) == Some(dir),
        ordinary(root.text@),
    ensures
        preset.build_dir_rel == expanded(dir, root.text@) || splits_into(
            expanded(dir, root.text@),
            root.text@,
            preset.build_dir_rel,
        ),
        preset.elf_rel == elf_path(preset.build_dir_rel, project),
{
}

/// A build directory outside the project is kept as it is, with `${sourceDir}`
/// replaced. So is every one where the path of the project is no valid Unicode.
pub proof fn law_outside_dir_is_kept(
    entry: JsonView,
    project: Option<Seq<char>>,
    root: ProjectRoot,
    dir: Seq<char>,
    preset: PresetView,
)
    requires
        is_target_of(entry, project, root, preset),
        entry.get_str("binaryDir"@) == Some(dir),
        !root.exact || lies_outside(expanded(dir, root.text@), root.text@),
    ensures
        preset.build_dir_rel == expanded(dir, root.text@),
        preset.elf_rel == elf_path(expanded(dir, root.text@), project),
{
}

} // verus!
