//! What holds of the generated files together: the tasks are those that the
//! buttons run and that the debug scenarios build with. The modules below say what
//! each part of the library is for.

pub mod breakpoint;
pub mod buttons;
pub mod chip;
pub mod debug;
pub mod generate;
pub mod json;
pub mod labels;
pub mod paths;
pub mod presets;
pub mod project;
pub mod tasks;
pub mod text;
pub mod tools;

use crate::debug::{
    configured_chip, lemma_scenario_names, scenario, target_scenario, EMBEDDED_ADAPTER,
};
use crate::generate::{
    config_in, debug_document, embedded_document, first_chip, is_plan_for,
    law_written_files_are_read_back, lemma_embedded_names, probe_speed, tasks_document, Plan, ProjectState,
};
use crate::json::{field, JsonView};
use crate::laws::labels::law_labels_in_order;
use crate::presets::PresetView;
use crate::status_buttons::{chosen, first_label, first_place, ScenarioChoice, TaskKind};
use crate::tasks::{
    all_tasks, labels, labels_in, plain_tasks, setting, target_tasks, task, task_entries, Tools,
};
use crate::text::{ends_with, occurs, occurs_at};
use vstd::prelude::*;

verus! {

/// The labels of the tasks of one target.
pub open spec fn target_labels(preset: PresetView) -> Seq<Seq<char>> {
    let name = preset.name;
    let build = seq![
        name + ": configure"@,
        name + ": build"@,
        name + ": clean"@,
        name + ": size"@,
    ];
    match preset.chip {
        Some(_) => build + seq![name + ": flash"@, name + ": erase"@, name + ": reset"@],
        None => build,
    }
}

/// The labels of the tasks of all targets.
pub open spec fn all_labels(presets: Seq<PresetView>) -> Seq<Seq<char>>
    decreases presets.len(),
{
    if presets.len() == 0 {
        Seq::empty()
    } else {
        target_labels(presets[0]) + all_labels(presets.skip(1))
    }
}

/// The labels of the tasks of a project without presets.
pub open spec fn plain_labels() -> Seq<Seq<char>> {
    seq![
        "stm32: configure"@,
        "stm32: build"@,
        "stm32: clean"@,
        "stm32: size"@,
        "stm32: flash"@,
        "stm32: erase"@,
        "stm32: reset"@,
    ]
}

proof fn lemma_labels_of(items: Seq<JsonView>, list: Seq<Seq<char>>)
    requires
        items.len() == list.len(),
        forall|i: int|
            0 <= i < items.len() ==> (#[trigger] items[i]).get_str("label"@) == Some(list[i]),
    ensures
        labels(items) == list,
    decreases items.len(),
{
    if items.len() == 0 {
        assert(labels(items) =~= list);
    } else {
        let earlier = list.drop_last();
        assert forall|i: int| 0 <= i < items.len() - 1 implies (
        #[trigger] items.drop_last()[i]).get_str("label"@) == Some(earlier[i]) by {
            assert(items.drop_last()[i] == items[i]);
        }
        lemma_labels_of(items.drop_last(), earlier);
        assert(items.last() == items[items.len() - 1]);
        assert(labels(items) =~= list);
    }
}

proof fn lemma_task_label(label: Seq<char>, command: Seq<char>, args: Seq<JsonView>)
    ensures
        task(label, command, args).get_str("label"@) == Some(label),
{
    let fields = task(label, command, args)->Object_0;
    assert(fields[0] == ("label"@, JsonView::Text(label)));
}

proof fn lemma_target_labels(preset: PresetView, tools: Tools, speed: Option<u64>)
    ensures
        labels(target_tasks(preset, tools, speed)) == target_labels(preset),
{
    let items = target_tasks(preset, tools, speed);
    let list = target_labels(preset);
    assert forall|i: int| 0 <= i < items.len() implies (#[trigger] items[i]).get_str("label"@)
        == Some(list[i]) by {
        let fields = items[i]->Object_0;
        let command = fields[1].1->Text_0;
        let args = fields[2].1->Array_0;
        assert(items[i] == task(list[i], command, args));
        lemma_task_label(list[i], command, args);
    }
    lemma_labels_of(items, list);
}

proof fn lemma_all_labels_last(presets: Seq<PresetView>)
    requires
        presets.len() > 0,
    ensures
        all_labels(presets) == all_labels(presets.drop_last()) + target_labels(presets.last()),
    decreases presets.len(),
{
    if presets.len() == 1 {
        assert(presets.skip(1) =~= Seq::empty());
        assert(presets.drop_last() =~= Seq::empty());
        assert(all_labels(presets.skip(1)).len() == 0);
        assert(all_labels(presets.drop_last()).len() == 0);
        assert(all_labels(presets) =~= target_labels(presets[0]));
        assert(all_labels(presets.drop_last()) + target_labels(presets.last()) =~= target_labels(
            presets[0],
        ));
    } else {
        lemma_all_labels_last(presets.skip(1));
        assert(presets.skip(1).drop_last() =~= presets.drop_last().skip(1));
        assert(presets.skip(1).last() == presets.last());
        assert(presets.drop_last()[0] == presets[0]);
        assert(all_labels(presets) =~= all_labels(presets.drop_last()) + target_labels(
            presets.last(),
        ));
    }
}

proof fn lemma_all_labels(presets: Seq<PresetView>, tools: Tools, speed: Option<u64>)
    ensures
        labels(all_tasks(presets, tools, speed)) == all_labels(presets),
    decreases presets.len(),
{
    if presets.len() > 0 {
        lemma_all_labels(presets.drop_last(), tools, speed);
        lemma_target_labels(presets.last(), tools, speed);
        law_labels_in_order(
            all_tasks(presets.drop_last(), tools, speed),
            target_tasks(presets.last(), tools, speed),
        );
        lemma_all_labels_last(presets);
    }
}

/// The labels that are read from the generated tasks are those of the targets, in
/// their order, or those of a project without presets.
pub proof fn law_generated_labels(
    presets: Seq<PresetView>,
    config: Option<JsonView>,
    tools: Tools,
)
    ensures
        labels(task_entries(tasks_document(presets, config, tools))) == if presets.len() == 0 {
            plain_labels()
        } else {
            all_labels(presets)
        },
{
    if presets.len() == 0 {
        let items = plain_tasks(config, tools);
        let list = plain_labels();
        assert forall|i: int| 0 <= i < items.len() implies (#[trigger] items[i]).get_str("label"@)
            == Some(list[i]) by {
            let fields = items[i]->Object_0;
            let command = fields[1].1->Text_0;
            let args = fields[2].1->Array_0;
            assert(items[i] == task(list[i], command, args));
            lemma_task_label(list[i], command, args);
        }
        lemma_labels_of(items, list);
    } else {
        lemma_all_labels(presets, tools, probe_speed(config));
    }
}

proof fn lemma_first_label_concat(a: Seq<Seq<char>>, b: Seq<Seq<char>>, kind: TaskKind)
    ensures
        first_label(a + b, kind) == match first_label(a, kind) {
            Some(label) => Some(label),
            None => first_label(b, kind),
        },
    decreases a.len(),
{
    if a.len() == 0 {
        assert(a + b =~= b);
    } else {
        assert((a + b)[0] == a[0]);
        assert((a + b).skip(1) =~= a.skip(1) + b);
        lemma_first_label_concat(a.skip(1), b, kind);
    }
}

proof fn lemma_verbs()
    ensures
        ": configure"@ == seq![':', ' ', 'c', 'o', 'n', 'f', 'i', 'g', 'u', 'r', 'e'],
        ": build"@ == seq![':', ' ', 'b', 'u', 'i', 'l', 'd'],
        ": clean"@ == seq![':', ' ', 'c', 'l', 'e', 'a', 'n'],
        ": size"@ == seq![':', ' ', 's', 'i', 'z', 'e'],
        ": flash"@ == seq![':', ' ', 'f', 'l', 'a', 's', 'h'],
        "flash"@ == seq!['f', 'l', 'a', 's', 'h'],
        "download"@ == seq!['d', 'o', 'w', 'n', 'l', 'o', 'a', 'd'],
        "stm32"@ == seq!['s', 't', 'm', '3', '2'],
{
    reveal_strlit(": configure");
    reveal_strlit(": build");
    reveal_strlit(": clean");
    reveal_strlit(": size");
    reveal_strlit(": flash");
    reveal_strlit("flash");
    reveal_strlit("download");
    reveal_strlit("stm32");
    assert(": configure"@ =~= seq![':', ' ', 'c', 'o', 'n', 'f', 'i', 'g', 'u', 'r', 'e']);
    assert(": build"@ =~= seq![':', ' ', 'b', 'u', 'i', 'l', 'd']);
    assert(": clean"@ =~= seq![':', ' ', 'c', 'l', 'e', 'a', 'n']);
    assert(": size"@ =~= seq![':', ' ', 's', 'i', 'z', 'e']);
    assert(": flash"@ =~= seq![':', ' ', 'f', 'l', 'a', 's', 'h']);
    assert("flash"@ =~= seq!['f', 'l', 'a', 's', 'h']);
    assert("download"@ =~= seq!['d', 'o', 'w', 'n', 'l', 'o', 'a', 'd']);
    assert("stm32"@ =~= seq!['s', 't', 'm', '3', '2']);
}

proof fn lemma_plain_labels()
    ensures
        "stm32: configure"@ == "stm32"@ + ": configure"@,
        "stm32: build"@ == "stm32"@ + ": build"@,
        "stm32: clean"@ == "stm32"@ + ": clean"@,
        "stm32: size"@ == "stm32"@ + ": size"@,
        "stm32: flash"@ == "stm32"@ + ": flash"@,
{
    lemma_verbs();
    reveal_strlit("stm32: configure");
    reveal_strlit("stm32: build");
    reveal_strlit("stm32: clean");
    reveal_strlit("stm32: size");
    reveal_strlit("stm32: flash");
    assert("stm32: configure"@ =~= "stm32"@ + ": configure"@);
    assert("stm32: build"@ =~= "stm32"@ + ": build"@);
    assert("stm32: clean"@ =~= "stm32"@ + ": clean"@);
    assert("stm32: size"@ =~= "stm32"@ + ": size"@);
    assert("stm32: flash"@ =~= "stm32"@ + ": flash"@);
}

proof fn lemma_suffix(name: Seq<char>, suffix: Seq<char>)
    ensures
        ends_with(name + suffix, suffix),
{
    assert((name + suffix).subrange(name.len() as int, (name + suffix).len() as int) =~= suffix);
}

proof fn lemma_not_suffix(s: Seq<char>, suffix: Seq<char>)
    requires
        s.len() > 0,
        suffix.len() > 0,
        s.last() != suffix.last(),
    ensures
        !ends_with(s, suffix),
{
    if ends_with(s, suffix) {
        let at = s.len() - suffix.len();
        assert(s.subrange(at, at + suffix.len())[suffix.len() - 1] == s[s.len() - 1]);
    }
}

proof fn lemma_target_build_label(name: Seq<char>, rest: Seq<Seq<char>>)
    ensures
        first_label(seq![name + ": configure"@, name + ": build"@] + rest, TaskKind::Build)
            == Some(name + ": build"@),
{
    lemma_verbs();
    lemma_plain_labels();
    let list = seq![name + ": configure"@, name + ": build"@] + rest;
    let first = name + ": configure"@;
    assert(first.last() == 'e');
    assert(("stm32"@ + ": build"@).last() == 'd');
    lemma_not_suffix(first, ": build"@);
    lemma_suffix(name, ": build"@);
    assert(list[0] == first);
    assert(list.skip(1)[0] == name + ": build"@);
    assert(first_label(list.skip(1), TaskKind::Build) == Some(name + ": build"@));
}

/// With the generated tasks, the build button builds the first target.
pub proof fn law_build_button_builds_first_target(presets: Seq<PresetView>)
    ensures
        presets.len() > 0 ==> first_label(all_labels(presets), TaskKind::Build) == Some(
            presets[0].name + ": build"@,
        ),
        first_label(plain_labels(), TaskKind::Build) == Some("stm32: build"@),
{
    lemma_plain_labels();
    if presets.len() > 0 {
        let name = presets[0].name;
        let list = all_labels(presets);
        let rest = list.skip(2);
        assert(target_labels(presets[0])[0] == name + ": configure"@);
        assert(target_labels(presets[0])[1] == name + ": build"@);
        assert(list =~= seq![name + ": configure"@, name + ": build"@] + rest);
        lemma_target_build_label(name, rest);
    }
    let rest = plain_labels().skip(2);
    assert(plain_labels() =~= seq!["stm32"@ + ": configure"@, "stm32"@ + ": build"@] + rest);
    lemma_target_build_label("stm32"@, rest);
}

/// Whether a text speaks neither of flashing nor of downloading.
pub open spec fn quiet(s: Seq<char>) -> bool {
    !TaskKind::Flash.accepts(s)
}

proof fn lemma_occurs_in_concat(a: Seq<char>, b: Seq<char>, pattern: Seq<char>)
    requires
        b.len() > 0,
        occurs(a + b, pattern),
        forall|i: int| 0 <= i < pattern.len() ==> pattern[i] != b[0],
    ensures
        occurs(a, pattern) || occurs(b, pattern),
{
    let at = choose|at: int| occurs_at(a + b, pattern, at);
    let whole = a + b;
    if at + pattern.len() <= a.len() {
        assert(a.subrange(at, at + pattern.len()) =~= whole.subrange(at, at + pattern.len()));
        assert(occurs_at(a, pattern, at));
    } else if at >= a.len() {
        let inside = at - a.len();
        assert(b.subrange(inside, inside + pattern.len()) =~= whole.subrange(
            at,
            at + pattern.len(),
        ));
        assert(occurs_at(b, pattern, inside));
    } else {
        let k = a.len() - at;
        assert(whole.subrange(at, at + pattern.len())[k] == whole[a.len() as int]);
        assert(pattern[k] == b[0]);
    }
}

proof fn lemma_quiet_verb(verb: Seq<char>)
    requires
        verb == ": configure"@ || verb == ": build"@ || verb == ": clean"@ || verb == ": size"@,
    ensures
        quiet(verb),
        verb.len() > 0,
        verb[0] == ':',
{
    lemma_verbs();
    if occurs(verb, "flash"@) {
        let at = choose|at: int| occurs_at(verb, "flash"@, at);
        let piece = verb.subrange(at, at + 5);
        assert(piece[0] == 'f' && piece[1] == 'l');
        assert(verb[at] == 'f' && verb[at + 1] == 'l');
        assert(false);
    }
    if occurs(verb, "download"@) {
        let at = choose|at: int| occurs_at(verb, "download"@, at);
        let piece = verb.subrange(at, at + 8);
        assert(piece[0] == 'd' && piece[1] == 'o');
        assert(verb[at] == 'd' && verb[at + 1] == 'o');
        assert(false);
    }
}

proof fn lemma_quiet_label(name: Seq<char>, verb: Seq<char>)
    requires
        quiet(name),
        verb == ": configure"@ || verb == ": build"@ || verb == ": clean"@ || verb == ": size"@,
    ensures
        quiet(name + verb),
{
    lemma_verbs();
    lemma_quiet_verb(verb);
    if occurs(name + verb, "flash"@) {
        lemma_occurs_in_concat(name, verb, "flash"@);
    }
    if occurs(name + verb, "download"@) {
        lemma_occurs_in_concat(name, verb, "download"@);
    }
}

proof fn lemma_flash_label(name: Seq<char>)
    ensures
        TaskKind::Flash.accepts(name + ": flash"@),
{
    lemma_verbs();
    let label = name + ": flash"@;
    let at: int = name.len() as int + 2;
    assert(label.subrange(at, at + 5) =~= "flash"@);
    assert(occurs_at(label, "flash"@, at));
}

proof fn lemma_quiet_start(name: Seq<char>, rest: Seq<Seq<char>>)
    requires
        quiet(name),
    ensures
        first_label(
            seq![
                name + ": configure"@,
                name + ": build"@,
                name + ": clean"@,
                name + ": size"@,
            ] + rest,
            TaskKind::Flash,
        ) == first_label(rest, TaskKind::Flash),
{
    lemma_quiet_label(name, ": configure"@);
    lemma_quiet_label(name, ": build"@);
    lemma_quiet_label(name, ": clean"@);
    lemma_quiet_label(name, ": size"@);
    let start = seq![
        name + ": configure"@,
        name + ": build"@,
        name + ": clean"@,
        name + ": size"@,
    ];
    let kind = TaskKind::Flash;
    assert(first_label(start.skip(1).skip(1).skip(1).skip(1), kind) is None);
    assert(first_label(start.skip(1).skip(1).skip(1), kind) is None);
    assert(first_label(start.skip(1).skip(1), kind) is None);
    assert(first_label(start.skip(1), kind) is None);
    lemma_first_label_concat(start, rest, kind);
}

/// The label of the flash task of the first target whose chip is known.
pub open spec fn flash_label(presets: Seq<PresetView>) -> Option<Seq<char>>
    decreases presets.len(),
{
    if presets.len() == 0 {
        None
    } else if presets[0].chip is Some {
        Some(presets[0].name + ": flash"@)
    } else {
        flash_label(presets.skip(1))
    }
}

/// Whether no target is itself named after flashing or downloading, up to the
/// first whose chip is known.
pub open spec fn quiet_names(presets: Seq<PresetView>) -> bool
    decreases presets.len(),
{
    presets.len() == 0 || (quiet(presets[0].name) && (presets[0].chip is Some || quiet_names(
        presets.skip(1),
    )))
}

/// With the generated tasks, the flash button flashes the first target whose chip
/// is known, where up to that no target is itself named after flashing or
/// downloading. It has no task where no chip is known.
pub proof fn law_flash_button_flashes_first_known_chip(presets: Seq<PresetView>)
    requires
        quiet_names(presets),
    ensures
        first_label(all_labels(presets), TaskKind::Flash) == flash_label(presets),
        first_label(plain_labels(), TaskKind::Flash) == Some("stm32: flash"@),
    decreases presets.len(),
{
    let kind = TaskKind::Flash;
    if presets.len() > 0 {
        let name = presets[0].name;
        let others = all_labels(presets.skip(1));
        let start = seq![
            name + ": configure"@,
            name + ": build"@,
            name + ": clean"@,
            name + ": size"@,
        ];
        let rest = all_labels(presets).skip(4);
        assert(all_labels(presets) =~= start + rest);
        lemma_quiet_start(name, rest);
        if presets[0].chip is Some {
            lemma_flash_label(name);
            assert(rest[0] == name + ": flash"@);
        } else {
            law_flash_button_flashes_first_known_chip(presets.skip(1));
            assert(rest =~= others);
        }
    }
    lemma_plain_flash_label();
}

proof fn lemma_plain_flash_label()
    ensures
        first_label(plain_labels(), TaskKind::Flash) == Some("stm32: flash"@),
{
    lemma_verbs();
    lemma_plain_labels();
    assert(quiet("stm32"@)) by {
        if occurs("stm32"@, "flash"@) {
            let at = choose|at: int| occurs_at("stm32"@, "flash"@, at);
            assert("stm32"@.subrange(at, at + 5)[0] == 'f');
        }
    }
    let rest = plain_labels().skip(4);
    assert(plain_labels() =~= seq![
        "stm32"@ + ": configure"@,
        "stm32"@ + ": build"@,
        "stm32"@ + ": clean"@,
        "stm32"@ + ": size"@,
    ] + rest);
    lemma_quiet_start("stm32"@, rest);
    lemma_flash_label("stm32"@);
    assert(rest[0] == "stm32"@ + ": flash"@);
}

/// A field that is the first of its name is found by it.
pub proof fn lemma_field_at(fields: Seq<(Seq<char>, JsonView)>, i: int)
    requires
        0 <= i < fields.len(),
        forall|j: int| 0 <= j < i ==> (#[trigger] fields[j]).0 != fields[i].0,
    ensures
        field(fields, fields[i].0) == Some(fields[i].1),
    decreases fields.len(),
{
    if i > 0 {
        let rest = fields.skip(1);
        assert(rest[i - 1] == fields[i]);
        assert forall|j: int| 0 <= j < i - 1 implies (#[trigger] rest[j]).0 != rest[i - 1].0 by {
            assert(rest[j] == fields[j + 1]);
        }
        assert(fields[0].0 != fields[i].0);
        lemma_field_at(rest, i - 1);
    }
}

proof fn lemma_scenario_fields(
    label: Seq<char>,
    program: Seq<char>,
    build: Seq<char>,
    chip: Option<Seq<char>>,
)
    ensures
        scenario(label, program, build, chip).get_str("adapter"@) == Some(EMBEDDED_ADAPTER@),
        scenario(label, program, build, chip).get_str("program"@) == Some(program),
        scenario(label, program, build, chip).get_str("build"@) == Some(build),
{
    lemma_scenario_names(label, program, build, chip);
    let fields = scenario(label, program, build, chip)->Object_0;
    lemma_field_at(fields, 1);
    lemma_field_at(fields, 3);
    lemma_field_at(fields, 5);
}

proof fn lemma_labels_contain_build(presets: Seq<PresetView>, i: int)
    requires
        0 <= i < presets.len(),
    ensures
        all_labels(presets).contains(presets[i].name + ": build"@),
    decreases presets.len(),
{
    let first = target_labels(presets[0]);
    let rest = all_labels(presets.skip(1));
    if i == 0 {
        assert(all_labels(presets)[1] == first[1]);
        assert(all_labels(presets)[1] == presets[0].name + ": build"@);
    } else {
        lemma_labels_contain_build(presets.skip(1), i - 1);
        assert(presets.skip(1)[i - 1] == presets[i]);
        let wanted = presets[i].name + ": build"@;
        let k = choose|k: int| 0 <= k < rest.len() && rest[k] == wanted;
        assert(all_labels(presets)[first.len() + k] == wanted);
    }
}

/// Every generated scenario is one of the embedded adapter, and the task that it
/// builds with is one of the generated tasks.
pub proof fn law_scenarios_build_with_generated_tasks(
    presets: Seq<PresetView>,
    config: Option<JsonView>,
    tools: Tools,
    i: int,
)
    requires
        0 <= i < debug_document(presets, config)->Array_0.len(),
    ensures
        debug_document(presets, config) is Array,
        ({
            let chosen_scenario = debug_document(presets, config)->Array_0[i];
            let task_labels = labels(task_entries(tasks_document(presets, config, tools)));
            &&& chosen_scenario.get_str("adapter"@) == Some(EMBEDDED_ADAPTER@)
            &&& chosen_scenario.get_str("build"@) matches Some(build) && task_labels.contains(
                build,
            )
        }),
{
    law_generated_labels(presets, config, tools);
    let one = debug_document(presets, config)->Array_0[i];
    let label = one->Object_0[0].1->Text_0;
    let program = one->Object_0[3].1->Text_0;
    let build = one->Object_0[5].1->Text_0;
    let chip = if presets.len() == 0 {
        configured_chip(config)
    } else {
        presets[i].chip
    };
    assert(one == scenario(label, program, build, chip));
    lemma_scenario_fields(label, program, build, chip);
    if presets.len() == 0 {
        assert(plain_labels()[1] == "stm32: build"@);
    } else {
        lemma_labels_contain_build(presets, i);
        assert(one == target_scenario(presets[i]));
    }
}

/// Every target can be debugged: its scenario launches the program that it
/// builds.
pub proof fn law_every_target_has_a_scenario(
    presets: Seq<PresetView>,
    config: Option<JsonView>,
    i: int,
)
    requires
        0 <= i < presets.len(),
    ensures
        debug_document(presets, config)->Array_0.len() == presets.len(),
        debug_document(presets, config)->Array_0[i].get_str("program"@) == Some(
            presets[i].elf_rel,
        ),
        debug_document(presets, config)->Array_0[i].get_str("build"@) == Some(
            presets[i].name + ": build"@,
        ),
{
    let preset = presets[i];
    let subject = match preset.chip {
        Some(chip) => chip,
        None => preset.name,
    };
    lemma_scenario_fields(
        preset.name + ": debug "@ + subject,
        preset.elf_rel,
        preset.name + ": build"@,
        preset.chip,
    );
}

/// Where a text first stands in a list.
pub proof fn lemma_first_place(list: Seq<Seq<char>>, wanted: Seq<char>)
    ensures
        first_place(list, wanted) <= list.len(),
        first_place(list, wanted) < list.len() ==> list[first_place(list, wanted) as int]
            == wanted,
        list.contains(wanted) <==> first_place(list, wanted) < list.len(),
        forall|i: int|
            0 <= i < first_place(list, wanted) && i < list.len() ==> #[trigger] list[i] != wanted,
    decreases list.len(),
{
    if list.len() > 0 && list[0] != wanted {
        let rest = list.skip(1);
        lemma_first_place(rest, wanted);
        let n = first_place(rest, wanted);
        if n < rest.len() {
            assert(list[n as int + 1] == rest[n as int]);
        }
        assert forall|i: int| 0 <= i < first_place(list, wanted) && i < list.len() implies
            #[trigger] list[i] != wanted by {
            if i > 0 {
                assert(list[i] == rest[i - 1]);
            }
        }
        if list.contains(wanted) {
            let k = choose|k: int| 0 <= k < list.len() && list[k] == wanted;
            assert(rest[k - 1] == wanted);
            assert(rest.contains(wanted));
        }
    }
}

/// The debug button starts some scenario whenever there is one, and one of the
/// embedded adapter whenever there is one of these.
pub proof fn law_debug_prefers_embedded_adapter(
    recent: Seq<Seq<char>>,
    from_file: Seq<Seq<char>>,
)
    requires
        recent.len() <= usize::MAX,
        from_file.len() <= usize::MAX,
    ensures
        chosen(recent, from_file) is None <==> recent.len() == 0 && from_file.len() == 0,
        match chosen(recent, from_file) {
            Some(ScenarioChoice::Recent(i)) => {
                &&& i < recent.len()
                &&& recent.contains(EMBEDDED_ADAPTER@) || from_file.contains(EMBEDDED_ADAPTER@)
                    ==> recent[i as int] == EMBEDDED_ADAPTER@
            },
            Some(ScenarioChoice::FromFile(i)) => {
                &&& i < from_file.len()
                &&& recent.contains(EMBEDDED_ADAPTER@) || from_file.contains(EMBEDDED_ADAPTER@)
                    ==> from_file[i as int] == EMBEDDED_ADAPTER@
            },
            None => true,
        },
{
    lemma_first_place(recent, EMBEDDED_ADAPTER@);
    lemma_first_place(from_file, EMBEDDED_ADAPTER@);
}

/// The generated `embedded.json` is a configuration that names the chip of the
/// first target whose chip is known and the build directory of the first target,
/// and sets no probe speed.
pub proof fn law_embedded_document_is_configuration(presets: Seq<PresetView>)
    ensures
        first_chip(presets) matches Some(chip) ==> setting(
            Some(embedded_document(presets)),
            "chip"@,
            "STM32F103C8"@,
        ) == chip,
        first_chip(presets) is None ==> setting(
            Some(embedded_document(presets)),
            "chip"@,
            "STM32F103C8"@,
        ) == "STM32F103C8"@,
        setting(Some(embedded_document(presets)), "buildDir"@, "build"@) == if presets.len() > 0 {
            presets[0].build_dir_rel
        } else {
            "build"@
        },
        probe_speed(Some(embedded_document(presets))) is None,
{
    lemma_embedded_names(presets);
    let fields = embedded_document(presets)->Object_0;
    lemma_field_at(fields, 2);
    lemma_field_at(fields, 3);
    lemma_no_field(fields, "speed"@);
}

/// A name that no field has is not found.
pub proof fn lemma_no_field(fields: Seq<(Seq<char>, JsonView)>, key: Seq<char>)
    requires
        forall|i: int| 0 <= i < fields.len() ==> (#[trigger] fields[i]).0 != key,
    ensures
        field(fields, key) is None,
    decreases fields.len(),
{
    if fields.len() > 0 {
        let rest = fields.skip(1);
        assert(fields[0].0 != key);
        assert forall|i: int| 0 <= i < rest.len() implies (#[trigger] rest[i]).0 != key by {
            assert(rest[i] == fields[i + 1]);
        }
        lemma_no_field(rest, key);
    }
}

/// What is written into `tasks.json` is what the buttons read from it: the labels
/// of the targets. Of these the build button takes the build task of the first,
/// and the flash button the flash task of the first whose chip is known, where
/// up to that no target is itself named after flashing or downloading.
pub proof fn law_written_tasks_feed_the_buttons(
    state: ProjectState,
    presets: Seq<PresetView>,
    plan: Plan,
    i: int,
)
    requires
        is_plan_for(state, presets, plan),
        0 <= i < plan.files@.len(),
        plan.files@[i].name@ == "tasks.json"@,
    ensures
        labels_in(Some(plan.files@[i].contents)) == if presets.len() == 0 {
            plain_labels()
        } else {
            all_labels(presets)
        },
        first_label(labels_in(Some(plan.files@[i].contents)), TaskKind::Build) == Some(
            if presets.len() == 0 {
                "stm32: build"@
            } else {
                presets[0].name + ": build"@
            },
        ),
        quiet_names(presets) ==> first_label(
            labels_in(Some(plan.files@[i].contents)),
            TaskKind::Flash,
        ) == if presets.len() == 0 {
            Some("stm32: flash"@)
        } else {
            flash_label(presets)
        },
{
    law_written_files_are_read_back(state, presets, plan, i);
    law_generated_labels(presets, config_in(state.config_text), state.tools);
    law_build_button_builds_first_target(presets);
    if quiet_names(presets) {
        law_flash_button_flashes_first_known_chip(presets);
    }
}

/// What is written into `embedded.json` is the configuration that is read from it
/// the next time.
pub proof fn law_written_configuration_is_read_back(
    state: ProjectState,
    presets: Seq<PresetView>,
    plan: Plan,
    i: int,
)
    requires
        is_plan_for(state, presets, plan),
        0 <= i < plan.files@.len(),
        plan.files@[i].name@ == "embedded.json"@,
    ensures
        config_in(Some(plan.files@[i].contents)) == Some(embedded_document(presets)),
{
    law_written_files_are_read_back(state, presets, plan, i);
}

} // verus!
