//! Which build targets are found, and what they are.

use crate::chip::{chip_name, cuts_cleanly};
use crate::json::JsonView;
use crate::json_text::json_parsed;
use crate::laws::text::{law_replacing, part_at};
use crate::presets::{
    are_targets_of, build_dir, expanded, is_target, is_target_of, listed, listed_in, may_be_rest,
    optional_text, part_name, parts_cut_cleanly, presets_view, target, targets, Preset, PresetView,
    ProjectRoot,
};
use crate::text::{lemma_replace_absent, occurs, occurs_at, replace_all};
use vstd::prelude::*;

verus! {

/// Whether an entry has a name and is not hidden.
pub open spec fn visible(entry: JsonView) -> bool {
    &&& entry.get("name"@) matches Some(name) && name is Text
    &&& entry.get("hidden"@) != Some(JsonView::Bool(true))
}

/// Whether `chip` is that of the part that the cache variables of an entry name:
/// `LY_MCU` if there is one, and else `CHIP`.
pub open spec fn has_chip(entry: JsonView, chip: Option<Seq<char>>) -> bool {
    match entry.get("cacheVariables"@) {
        Some(variables) => match variables.get("LY_MCU"@) {
            Some(JsonView::Text(raw)) => chip == chip_name(raw),
            Some(_) => chip is None,
            None => match variables.get("CHIP"@) {
                Some(JsonView::Text(raw)) => chip == chip_name(raw),
                _ => chip is None,
            },
        },
        None => chip is None,
    }
}

/// Whether a target is what an entry says: it has the name of the entry, which CMake
/// knows it by, the chip of the entry, and the program of the project in its build
/// directory. That is `build/<name>` where the entry gives none.
pub open spec fn made_from(
    entry: JsonView,
    project: Option<Seq<char>>,
    found: PresetView,
) -> bool {
    &&& entry.get("name"@) == Some(JsonView::Text(found.name))
    &&& has_chip(entry, found.chip)
    &&& !(entry.get("binaryDir"@) matches Some(dir) && dir is Text) ==> found.build_dir_rel
        == "build/"@ + found.name
    &&& found.elf_rel == found.build_dir_rel + "/"@ + (match project {
        Some(name) => name,
        None => "fw"@,
    }) + ".elf"@
}

/// A target is what its entry says.
pub proof fn law_target_is_what_its_entry_says(
    entry: JsonView,
    project: Option<Seq<char>>,
    root: ProjectRoot,
    found: PresetView,
)
    requires
        visible(entry),
        is_target_of(entry, project, root, found),
    ensures
        made_from(entry, project, found),
{
}

/// A target that is built in `dir` has the name and the chip of its entry, and the
/// program of the project in `dir`.
pub proof fn law_target_built_in_a_directory(
    entry: JsonView,
    project: Option<Seq<char>>,
    dir: Seq<char>,
)
    requires
        visible(entry),
    ensures
        ({
            let found = target(entry, project, dir);
            &&& entry.get("name"@) == Some(JsonView::Text(found.name))
            &&& found.build_dir_rel == dir
            &&& has_chip(entry, found.chip)
            &&& found.elf_rel == dir + "/"@ + (match project {
                Some(name) => name,
                None => "fw"@,
            }) + ".elf"@
        }),
{
}

/// The build directory is what stripping the project directory left, or the whole of
/// what the entry gives where that left nothing to take, or `build/<name>` where the
/// entry gives none.
pub proof fn law_chosen_build_dir(
    entry: JsonView,
    root: ProjectRoot,
    name: Seq<char>,
    dir: Seq<char>,
    rest: Seq<char>,
)
    requires
        entry.get("name"@) == Some(JsonView::Text(name)),
    ensures
        entry.get("binaryDir"@) == Some(JsonView::Text(dir)) ==> build_dir(
            entry,
            root,
            Some(rest),
        ) == rest && build_dir(entry, root, None) == expanded(dir, root.text@),
        !(entry.get("binaryDir"@) matches Some(found) && found is Text) ==> build_dir(
            entry,
            root,
            Some(rest),
        ) == "build/"@ + name && build_dir(entry, root, None) == "build/"@ + name,
{
}

/// Two entries that agree on name, hiding, build directory and cache variables are
/// the same target, whatever else they hold.
pub proof fn law_other_fields_make_no_difference(
    entry: JsonView,
    other: JsonView,
    project: Option<Seq<char>>,
    root: ProjectRoot,
    found: PresetView,
)
    requires
        entry.get("name"@) == other.get("name"@),
        entry.get("hidden"@) == other.get("hidden"@),
        entry.get("binaryDir"@) == other.get("binaryDir"@),
        entry.get("cacheVariables"@) == other.get("cacheVariables"@),
    ensures
        is_target(entry) == is_target(other),
        is_target_of(entry, project, root, found) == is_target_of(other, project, root, found),
{
    if is_target_of(entry, project, root, found) {
        let rest = choose|rest: Option<Seq<char>>| #[trigger]
            may_be_rest(entry, root, rest) && found == target(
                entry,
                project,
                build_dir(entry, root, rest),
            );
        assert(may_be_rest(other, root, rest));
    }
    if is_target_of(other, project, root, found) {
        let rest = choose|rest: Option<Seq<char>>| #[trigger]
            may_be_rest(other, root, rest) && found == target(
                other,
                project,
                build_dir(other, root, rest),
            );
        assert(may_be_rest(entry, root, rest));
    }
}

/// Whether `places` are where the visible entries stand, in order.
pub open spec fn are_visible_places(items: Seq<JsonView>, places: Seq<int>) -> bool {
    &&& forall|i: int|
        0 <= i < places.len() ==> 0 <= #[trigger] places[i] < items.len() && visible(
            items[places[i]],
        )
    &&& forall|i: int, j: int| 0 <= i < j < places.len() ==> #[trigger] places[i] < #[trigger] places[j]
    &&& forall|k: int|
        0 <= k < items.len() && visible(#[trigger] items[k]) ==> places.contains(k)
}

proof fn lemma_places(items: Seq<JsonView>) -> (places: Seq<int>)
    ensures
        are_visible_places(items, places),
        places.len() == targets(items).len(),
        forall|i: int| 0 <= i < places.len() ==> targets(items)[i] == items[#[trigger] places[i]],
    decreases items.len(),
{
    if items.len() == 0 {
        Seq::empty()
    } else {
        let shorter = items.drop_last();
        let before = lemma_places(shorter);
        let last = items.len() - 1;
        assert(is_target(items.last()) == visible(items.last()));
        let places = if visible(items.last()) {
            before.push(last)
        } else {
            before
        };
        assert forall|i: int| 0 <= i < places.len() implies 0 <= #[trigger] places[i] < items.len()
            && visible(items[places[i]]) && targets(items)[i] == items[places[i]] by {
            if i < before.len() {
                assert(places[i] == before[i]);
                assert(shorter[before[i]] == items[before[i]]);
            }
        }
        assert forall|i: int, j: int| 0 <= i < j < places.len() implies #[trigger] places[i]
            < #[trigger] places[j] by {
            assert(places[i] == before[i]);
            if j < before.len() {
                assert(places[j] == before[j]);
            }
        }
        assert forall|k: int|
            0 <= k < items.len() && visible(#[trigger] items[k]) implies places.contains(k) by {
            if k < last {
                assert(shorter[k] == items[k]);
                assert(before.contains(k));
                let i = choose|i: int| 0 <= i < before.len() && before[i] == k;
                assert(places[i] == k);
            } else {
                assert(places[before.len() as int] == k);
            }
        }
        places
    }
}

/// The targets that are discovered are the visible presets, each of them and no
/// others, in their order, and each is what its entry says.
pub proof fn law_targets_are_the_visible_presets(
    items: Seq<JsonView>,
    project: Option<Seq<char>>,
    root: ProjectRoot,
    found: Seq<PresetView>,
)
    requires
        are_targets_of(items, project, root, found),
    ensures
        exists|places: Seq<int>|
            {
                &&& #[trigger] are_visible_places(items, places)
                &&& places.len() == found.len()
                &&& forall|i: int|
                    0 <= i < found.len() ==> made_from(
                        items[places[i]],
                        project,
                        #[trigger] found[i],
                    ) && is_target_of(items[places[i]], project, root, found[i])
            },
{
    let places = lemma_places(items);
    assert forall|i: int| 0 <= i < found.len() implies made_from(
        items[places[i]],
        project,
        #[trigger] found[i],
    ) && is_target_of(items[places[i]], project, root, found[i]) by {
        assert(targets(items)[i] == items[places[i]]);
        law_target_is_what_its_entry_says(items[places[i]], project, root, found[i]);
    }
    assert(are_visible_places(items, places));
}

/// The presets are listed under `configurePresets`, and without a list there are
/// none. Neither are there without the file, or where it is no document.
pub proof fn law_presets_are_listed(doc: JsonView, items: Seq<JsonView>, text: String)
    ensures
        doc.get("configurePresets"@) == Some(JsonView::Array(items)) ==> listed(doc) == items,
        !(doc.get("configurePresets"@) matches Some(list) && list is Array) ==> listed(doc).len()
            == 0,
        json_parsed(text@) == Some(doc) ==> listed_in(Some(text)) == listed(doc),
        json_parsed(text@) is None ==> listed_in(Some(text)).len() == 0,
        listed_in(None).len() == 0,
{
}

/// Whether the cache variables of an entry give the part name `raw`.
pub open spec fn names_part(entry: JsonView, raw: Seq<char>) -> bool {
    entry.get("cacheVariables"@) matches Some(variables) && {
        ||| variables.get("LY_MCU"@) == Some(JsonView::Text(raw))
        ||| variables.get("LY_MCU"@) is None && variables.get("CHIP"@) == Some(JsonView::Text(raw))
    }
}

/// Discovery gives up if and only if the codes cannot be cut out of the part name of
/// some visible preset.
pub proof fn law_discovery_needs_parts_that_can_be_cut(items: Seq<JsonView>)
    ensures
        parts_cut_cleanly(items) <==> forall|k: int, raw: Seq<char>|
            0 <= k < items.len() && visible(items[k]) && #[trigger] names_part(items[k], raw)
                ==> cuts_cleanly(raw),
{
    let places = lemma_places(items);
    let found = targets(items);
    if parts_cut_cleanly(items) {
        assert forall|k: int, raw: Seq<char>|
            0 <= k < items.len() && visible(items[k]) && #[trigger] names_part(
                items[k],
                raw,
            ) implies cuts_cleanly(raw) by {
            assert(places.contains(k));
            let i = choose|i: int| 0 <= i < places.len() && places[i] == k;
            assert(found[i] == items[places[i]]);
            assert(part_name(found[i]) == Some(raw));
        }
    }
    if forall|k: int, raw: Seq<char>|
        0 <= k < items.len() && visible(items[k]) && #[trigger] names_part(items[k], raw)
            ==> cuts_cleanly(raw) {
        assert forall|i: int| 0 <= i < found.len() implies (part_name(
            #[trigger] found[i],
        ) matches Some(raw) ==> cuts_cleanly(raw)) by {
            assert(found[i] == items[places[i]]);
            if let Some(raw) = part_name(found[i]) {
                assert(names_part(items[places[i]], raw));
            }
        }
    }
}

/// A build directory without `${sourceDir}` is taken as it is.
pub proof fn law_dir_without_variable(dir: Seq<char>, root: Seq<char>)
    requires
        !occurs(dir, "${sourceDir}"@),
    ensures
        expanded(dir, root) == dir,
{
    reveal_strlit("${sourceDir}");
    reveal_strlit("${sourceDir}/");
    let variable = "${sourceDir}"@;
    let prefix = "${sourceDir}/"@;
    lemma_replace_absent(dir, variable, root);
    if occurs(dir, prefix) {
        let at = choose|at: int| occurs_at(dir, prefix, at);
        assert(dir.subrange(at, at + variable.len()) =~= variable) by {
            assert forall|i: int| 0 <= i < variable.len() implies dir[at + i] == variable[i] by {
                assert(dir.subrange(at, at + prefix.len())[i] == prefix[i]);
            }
        }
        assert(occurs_at(dir, variable, at));
    }
    lemma_replace_absent(dir, prefix, ""@);
}

/// In a build directory, `${sourceDir}` stands for the project directory.
pub proof fn law_variable_is_the_project_directory(
    a: Seq<char>,
    b: Seq<char>,
    root: Seq<char>,
)
    requires
        !occurs(a, "${sourceDir}"@),
        !occurs(b, "${sourceDir}"@),
        !occurs(a + root + b, "${sourceDir}/"@),
    ensures
        expanded(a + "${sourceDir}"@ + b, root) == a + root + b,
{
    reveal_strlit("${sourceDir}");
    reveal_strlit("${sourceDir}/");
    let variable = "${sourceDir}"@;
    let n = variable.len() as int;
    let dir = a + variable + b;
    assert(variable[0] == '$');
    assert forall|i: int| 0 < i < n implies variable[i] != '$' by {}
    assert forall|at: int| 0 <= at < a.len() implies #[trigger] part_at(dir, n, at) != variable by {
        if part_at(dir, n, at) == variable {
            if at + n <= a.len() {
                assert(a.subrange(at, at + n) =~= part_at(dir, n, at));
                assert(occurs_at(a, variable, at));
            } else {
                let k = a.len() - at;
                assert(part_at(dir, n, at)[k] == dir[a.len() as int]);
                assert(dir[a.len() as int] == variable[0]);
            }
        }
    }
    law_replacing(a, variable, b, root);
    lemma_replace_absent(a + root + b, "${sourceDir}/"@, ""@);
}

/// The value of a target is made of its own fields.
pub proof fn law_values_of_targets(presets: Seq<Preset>, i: int)
    requires
        0 <= i < presets.len(),
    ensures
        presets_view(presets).len() == presets.len(),
        presets_view(presets)[i] == presets[i]@,
        presets[i]@.name == presets[i].name@,
        presets[i]@.build_dir_rel == presets[i].build_dir_rel@,
        presets[i]@.elf_rel == presets[i].elf_rel@,
        presets[i].chip matches Some(chip) ==> presets[i]@.chip == Some(chip@),
        presets[i].chip is None ==> presets[i]@.chip is None,
        optional_text(presets[i].chip) == presets[i]@.chip,
{
}

/// Every `${sourceDir}` in a build directory is replaced first, and one with a slash
/// that is then still there is dropped.
pub proof fn law_how_a_dir_is_expanded(dir: Seq<char>, root: Seq<char>)
    ensures
        expanded(dir, root) == replace_all(
            replace_all(dir, "${sourceDir}"@, root),
            "${sourceDir}/"@,
            Seq::empty(),
        ),
{
    reveal_strlit("");
    assert(""@ =~= Seq::empty());
}

} // verus!
