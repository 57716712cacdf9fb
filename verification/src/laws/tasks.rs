//! What the tasks of `.zed/tasks.json` do.

use crate::json::{Json, JsonView};
use crate::laws::lemma_field_at;
use crate::presets::PresetView;
use crate::tasks::{
    all_tasks, build_tasks, chip_tasks, config_view, flash_args, plain_tasks, setting,
    target_tasks, task, text_items, Tools,
};
use vstd::prelude::*;

verus! {

/// Whether a task runs the command with these arguments in the project directory,
/// in a terminal that is always shown, and says nothing else.
pub open spec fn runs(
    one: JsonView,
    label: Seq<char>,
    command: Seq<char>,
    args: Seq<JsonView>,
) -> bool {
    &&& one matches JsonView::Object(fields) && fields.len() == 5
    &&& one.get("label"@) == Some(JsonView::Text(label))
    &&& one.get("command"@) == Some(JsonView::Text(command))
    &&& one.get("args"@) == Some(JsonView::Array(args))
    &&& one.get("cwd"@) == Some(JsonView::Text("$ZED_WORKTREE_ROOT"@))
    &&& one.get("reveal"@) == Some(JsonView::Text("always"@))
}

proof fn lemma_task_runs(label: Seq<char>, command: Seq<char>, args: Seq<JsonView>)
    ensures
        runs(task(label, command, args), label, command, args),
{
    reveal_strlit("label");
    reveal_strlit("command");
    reveal_strlit("args");
    reveal_strlit("cwd");
    reveal_strlit("reveal");
    let fields = task(label, command, args)->Object_0;
    assert(fields[0].0.len() == 5);
    assert(fields[1].0.len() == 7);
    assert(fields[2].0.len() == 4);
    assert(fields[3].0.len() == 3);
    assert(fields[4].0.len() == 6);
    lemma_field_at(fields, 0);
    lemma_field_at(fields, 1);
    lemma_field_at(fields, 2);
    lemma_field_at(fields, 3);
    lemma_field_at(fields, 4);
}

/// The arguments that download the program `elf` to `chip`.
pub open spec fn downloads(
    args: Seq<JsonView>,
    chip: Seq<char>,
    speed: Option<u64>,
    elf: Seq<char>,
) -> bool {
    &&& args.len() == (if speed is Some {
        6int
    } else {
        4int
    })
    &&& args[0] == JsonView::Text("download"@)
    &&& args[1] == JsonView::Text("--chip"@)
    &&& args[2] == JsonView::Text(chip)
    &&& speed matches Some(n) ==> args[3] == JsonView::Text("--speed"@) && args[4]
        == JsonView::Number(Some(n))
    &&& args.last() == JsonView::Text(elf)
}

/// Whether the tasks that every target has stand in `list` at `at`: it is
/// configured, built and cleaned by its own preset, and its own program is
/// measured.
pub open spec fn builds_target(
    list: Seq<JsonView>,
    at: int,
    target: PresetView,
    tools: Tools,
) -> bool {
    let name = target.name;
    &&& 0 <= at
    &&& at + 4 <= list.len()
    &&& runs(
        list[at],
        name + ": configure"@,
        tools.cmake@,
        seq![JsonView::Text("--preset"@), JsonView::Text(name)],
    )
    &&& runs(
        list[at + 1],
        name + ": build"@,
        tools.cmake@,
        seq![JsonView::Text("--build"@), JsonView::Text("--preset"@), JsonView::Text(name)],
    )
    &&& runs(
        list[at + 2],
        name + ": clean"@,
        tools.cmake@,
        seq![
            JsonView::Text("--build"@),
            JsonView::Text("--preset"@),
            JsonView::Text(name),
            JsonView::Text("--target"@),
            JsonView::Text("clean"@),
        ],
    )
    &&& runs(list[at + 3], name + ": size"@, tools.size@, seq![JsonView::Text(target.elf_rel)])
}

/// Whether the tasks of a target for `chip` stand in `list` at `at`: its own program
/// is flashed to its own chip, which can be erased and reset.
pub open spec fn flashes_target(
    list: Seq<JsonView>,
    at: int,
    target: PresetView,
    chip: Seq<char>,
    tools: Tools,
    speed: Option<u64>,
) -> bool {
    let name = target.name;
    &&& 0 <= at
    &&& at + 3 <= list.len()
    &&& exists|args: Seq<JsonView>| #[trigger]
        downloads(args, chip, speed, target.elf_rel) && runs(
            list[at],
            name + ": flash"@,
            tools.probe_rs@,
            args,
        )
    &&& runs(
        list[at + 1],
        name + ": erase"@,
        tools.probe_rs@,
        seq![JsonView::Text("erase"@), JsonView::Text("--chip"@), JsonView::Text(chip)],
    )
    &&& runs(
        list[at + 2],
        name + ": reset"@,
        tools.probe_rs@,
        seq![JsonView::Text("reset"@), JsonView::Text("--chip"@), JsonView::Text(chip)],
    )
}

/// How many tasks a target has: three more where its chip is known.
pub open spec fn task_count(target: PresetView) -> int {
    if target.chip is Some {
        7
    } else {
        4
    }
}

/// Whether the tasks of a target stand in `list` at `at`.
pub open spec fn serves_target(
    list: Seq<JsonView>,
    at: int,
    target: PresetView,
    tools: Tools,
    speed: Option<u64>,
) -> bool {
    &&& builds_target(list, at, target, tools)
    &&& target.chip matches Some(chip) ==> flashes_target(
        list,
        at + 4,
        target,
        chip,
        tools,
        speed,
    )
}

proof fn lemma_target_tasks(target: PresetView, tools: Tools, speed: Option<u64>)
    ensures
        target_tasks(target, tools, speed).len() == task_count(target),
        serves_target(target_tasks(target, tools, speed), 0, target, tools, speed),
{
    let name = target.name;
    let cmake = tools.cmake@;
    let list = target_tasks(target, tools, speed);
    let configure = seq![JsonView::Text("--preset"@), JsonView::Text(name)];
    assert(text_items(seq!["--preset"@, name]) =~= configure);
    lemma_task_runs(name + ": configure"@, cmake, configure);
    let build = seq![
        JsonView::Text("--build"@),
        JsonView::Text("--preset"@),
        JsonView::Text(name),
    ];
    assert(text_items(seq!["--build"@, "--preset"@, name]) =~= build);
    lemma_task_runs(name + ": build"@, cmake, build);
    let clean = seq![
        JsonView::Text("--build"@),
        JsonView::Text("--preset"@),
        JsonView::Text(name),
        JsonView::Text("--target"@),
        JsonView::Text("clean"@),
    ];
    assert(text_items(seq!["--build"@, "--preset"@, name, "--target"@, "clean"@]) =~= clean);
    lemma_task_runs(name + ": clean"@, cmake, clean);
    let size = seq![JsonView::Text(target.elf_rel)];
    assert(text_items(seq![target.elf_rel]) =~= size);
    lemma_task_runs(name + ": size"@, tools.size@, size);
    assert(builds_target(build_tasks(target, cmake, tools.size@), 0, target, tools));
    assert(builds_target(list, 0, target, tools));
    if let Some(chip) = target.chip {
        let probe_rs = tools.probe_rs@;
        let flash = flash_args(chip, speed, target.elf_rel);
        assert(downloads(flash, chip, speed, target.elf_rel));
        lemma_task_runs(name + ": flash"@, probe_rs, flash);
        let erase = seq![
            JsonView::Text("erase"@),
            JsonView::Text("--chip"@),
            JsonView::Text(chip),
        ];
        assert(text_items(seq!["erase"@, "--chip"@, chip]) =~= erase);
        lemma_task_runs(name + ": erase"@, probe_rs, erase);
        let reset = seq![
            JsonView::Text("reset"@),
            JsonView::Text("--chip"@),
            JsonView::Text(chip),
        ];
        assert(text_items(seq!["reset"@, "--chip"@, chip]) =~= reset);
        lemma_task_runs(name + ": reset"@, probe_rs, reset);
        let extra = chip_tasks(target, chip, probe_rs, speed);
        assert(list[4] == extra[0] && list[5] == extra[1] && list[6] == extra[2]);
        assert(flashes_target(list, 4, target, chip, tools, speed));
    }
}

proof fn lemma_serves_further(
    list: Seq<JsonView>,
    longer: Seq<JsonView>,
    at: int,
    shift: int,
    target: PresetView,
    tools: Tools,
    speed: Option<u64>,
)
    requires
        serves_target(list, at, target, tools, speed),
        0 <= shift,
        shift + list.len() <= longer.len(),
        forall|k: int| 0 <= k < list.len() ==> #[trigger] longer[shift + k] == list[k],
    ensures
        serves_target(longer, shift + at, target, tools, speed),
{
    assert(longer[shift + at] == list[at]);
    assert(longer[shift + (at + 1)] == list[at + 1]);
    assert(longer[shift + (at + 2)] == list[at + 2]);
    assert(longer[shift + (at + 3)] == list[at + 3]);
    if target.chip is Some {
        assert(longer[shift + (at + 4)] == list[at + 4]);
        assert(longer[shift + (at + 5)] == list[at + 5]);
        assert(longer[shift + (at + 6)] == list[at + 6]);
    }
}

/// Targets have their tasks one after the other, and those of a target do not
/// depend on the others.
pub proof fn law_targets_have_tasks_of_their_own(
    a: Seq<PresetView>,
    b: Seq<PresetView>,
    tools: Tools,
    speed: Option<u64>,
)
    ensures
        all_tasks(a + b, tools, speed) == all_tasks(a, tools, speed) + all_tasks(b, tools, speed),
    decreases b.len(),
{
    if b.len() == 0 {
        assert(a + b =~= a);
        assert(all_tasks(a, tools, speed) + all_tasks(b, tools, speed) =~= all_tasks(
            a,
            tools,
            speed,
        ));
    } else {
        assert((a + b).drop_last() =~= a + b.drop_last());
        assert((a + b).last() == b.last());
        law_targets_have_tasks_of_their_own(a, b.drop_last(), tools, speed);
        assert(all_tasks(a + b, tools, speed) =~= all_tasks(a, tools, speed) + all_tasks(
            b,
            tools,
            speed,
        ));
    }
}

/// A single target is configured, built, cleaned and measured, and where its chip is
/// known also flashed, erased and reset, by these tasks and no others.
pub proof fn law_tasks_of_one_target(target: PresetView, tools: Tools, speed: Option<u64>)
    ensures
        all_tasks(seq![target], tools, speed).len() == task_count(target),
        serves_target(all_tasks(seq![target], tools, speed), 0, target, tools, speed),
{
    let one = seq![target];
    assert(one.drop_last() =~= Seq::empty());
    assert(one.last() == target);
    assert(all_tasks(one.drop_last(), tools, speed).len() == 0);
    assert(all_tasks(one, tools, speed) =~= target_tasks(target, tools, speed));
    lemma_target_tasks(target, tools, speed);
}

/// Every target has its tasks: they name its own preset, and measure and flash its
/// own program on its own chip.
pub proof fn law_every_target_has_its_tasks(
    presets: Seq<PresetView>,
    tools: Tools,
    speed: Option<u64>,
    i: int,
)
    requires
        0 <= i < presets.len(),
    ensures
        exists|at: int| #[trigger]
            serves_target(all_tasks(presets, tools, speed), at, presets[i], tools, speed),
{
    let before = presets.take(i);
    let one = seq![presets[i]];
    let after = presets.skip(i + 1);
    assert(presets =~= before + (one + after));
    law_targets_have_tasks_of_their_own(before, one + after, tools, speed);
    law_targets_have_tasks_of_their_own(one, after, tools, speed);
    law_tasks_of_one_target(presets[i], tools, speed);
    let list = all_tasks(one, tools, speed);
    let longer = all_tasks(presets, tools, speed);
    let shift = all_tasks(before, tools, speed).len() as int;
    assert forall|k: int| 0 <= k < list.len() implies #[trigger] longer[shift + k] == list[k] by {
    }
    lemma_serves_further(list, longer, 0, shift, presets[i], tools, speed);
    assert(serves_target(longer, shift, presets[i], tools, speed));
}

/// Whether the string setting `key` is `value`: the configuration says so, or it has
/// no such string and `value` is the default.
pub open spec fn is_set_to(
    config: Option<JsonView>,
    key: Seq<char>,
    default: Seq<char>,
    value: Seq<char>,
) -> bool {
    ||| config matches Some(doc) && doc.get(key) == Some(JsonView::Text(value))
    ||| {
        &&& value == default
        &&& config matches Some(doc) ==> !(doc.get(key) matches Some(found) && found is Text)
    }
}

/// The tasks of a project without presets all work in the build directory of the
/// configuration: it is configured, built and cleaned, and the program in it is
/// measured and flashed to the chip of the configuration.
pub proof fn law_plain_tasks_work_in_the_build_dir(
    config: Option<JsonView>,
    tools: Tools,
    dir: Seq<char>,
    target: Seq<char>,
    chip: Seq<char>,
    toolchain: Seq<char>,
)
    requires
        is_set_to(config, "buildDir"@, "build"@, dir),
        is_set_to(config, "target"@, "fw"@, target),
        is_set_to(config, "chip"@, "STM32F103C8"@, chip),
        is_set_to(config, "toolchainFile"@, "cmake/arm-gcc-toolchain.cmake"@, toolchain),
    ensures
        ({
            let list = plain_tasks(config, tools);
            let elf = dir + "/"@ + target + ".elf"@;
            &&& list.len() == 7
            &&& runs(
                list[0],
                "stm32: configure"@,
                tools.cmake@,
                seq![
                    JsonView::Text("-G"@),
                    JsonView::Text("Ninja"@),
                    JsonView::Text("-S"@),
                    JsonView::Text("."@),
                    JsonView::Text("-B"@),
                    JsonView::Text(dir),
                    JsonView::Text("-DCMAKE_BUILD_TYPE=RelWithDebInfo"@),
                    JsonView::Text("-DCMAKE_TOOLCHAIN_FILE="@ + toolchain),
                ],
            )
            &&& runs(
                list[1],
                "stm32: build"@,
                tools.cmake@,
                seq![JsonView::Text("--build"@), JsonView::Text(dir)],
            )
            &&& runs(
                list[2],
                "stm32: clean"@,
                tools.cmake@,
                seq![
                    JsonView::Text("--build"@),
                    JsonView::Text(dir),
                    JsonView::Text("--target"@),
                    JsonView::Text("clean"@),
                ],
            )
            &&& runs(list[3], "stm32: size"@, tools.size@, seq![JsonView::Text(elf)])
            &&& exists|args: Seq<JsonView>| #[trigger]
                downloads(args, chip, None, elf) && runs(
                    list[4],
                    "stm32: flash"@,
                    tools.probe_rs@,
                    args,
                )
            &&& runs(
                list[5],
                "stm32: erase"@,
                tools.probe_rs@,
                seq![JsonView::Text("erase"@), JsonView::Text("--chip"@), JsonView::Text(chip)],
            )
            &&& runs(
                list[6],
                "stm32: reset"@,
                tools.probe_rs@,
                seq![JsonView::Text("reset"@), JsonView::Text("--chip"@), JsonView::Text(chip)],
            )
        }),
{
    let list = plain_tasks(config, tools);
    let elf = dir + "/"@ + target + ".elf"@;
    let configure = seq![
        JsonView::Text("-G"@),
        JsonView::Text("Ninja"@),
        JsonView::Text("-S"@),
        JsonView::Text("."@),
        JsonView::Text("-B"@),
        JsonView::Text(dir),
        JsonView::Text("-DCMAKE_BUILD_TYPE=RelWithDebInfo"@),
        JsonView::Text("-DCMAKE_TOOLCHAIN_FILE="@ + toolchain),
    ];
    assert(text_items(
        seq![
            "-G"@,
            "Ninja"@,
            "-S"@,
            "."@,
            "-B"@,
            dir,
            "-DCMAKE_BUILD_TYPE=RelWithDebInfo"@,
            "-DCMAKE_TOOLCHAIN_FILE="@ + toolchain,
        ],
    ) =~= configure);
    lemma_task_runs("stm32: configure"@, tools.cmake@, configure);
    let build = seq![JsonView::Text("--build"@), JsonView::Text(dir)];
    assert(text_items(seq!["--build"@, dir]) =~= build);
    lemma_task_runs("stm32: build"@, tools.cmake@, build);
    let clean = seq![
        JsonView::Text("--build"@),
        JsonView::Text(dir),
        JsonView::Text("--target"@),
        JsonView::Text("clean"@),
    ];
    assert(text_items(seq!["--build"@, dir, "--target"@, "clean"@]) =~= clean);
    lemma_task_runs("stm32: clean"@, tools.cmake@, clean);
    let size = seq![JsonView::Text(elf)];
    assert(text_items(seq![elf]) =~= size);
    lemma_task_runs("stm32: size"@, tools.size@, size);
    let flash = text_items(seq!["download"@, "--chip"@, chip, elf]);
    assert(downloads(flash, chip, None, elf));
    lemma_task_runs("stm32: flash"@, tools.probe_rs@, flash);
    let erase = seq![JsonView::Text("erase"@), JsonView::Text("--chip"@), JsonView::Text(chip)];
    assert(text_items(seq!["erase"@, "--chip"@, chip]) =~= erase);
    lemma_task_runs("stm32: erase"@, tools.probe_rs@, erase);
    let reset = seq![JsonView::Text("reset"@), JsonView::Text("--chip"@), JsonView::Text(chip)];
    assert(text_items(seq!["reset"@, "--chip"@, chip]) =~= reset);
    lemma_task_runs("stm32: reset"@, tools.probe_rs@, reset);
}

/// A string setting is what the configuration says, or its default.
pub proof fn law_settings(
    config: Option<JsonView>,
    key: Seq<char>,
    default: Seq<char>,
    value: Seq<char>,
)
    requires
        is_set_to(config, key, default, value),
    ensures
        setting(config, key, default) == value,
{
}

/// The value of a configuration is that of its document.
pub proof fn law_values_of_configurations(config: Json)
    ensures
        config_view(Some(config)) == Some(config@),
        config_view(None) is None,
{
}

} // verus!
