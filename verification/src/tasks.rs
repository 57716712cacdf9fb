//! The tasks of `.zed/tasks.json`.

use crate::json::{items_view, Fields, Items, Json, JsonView};
use crate::json_text::{json_parsed, parse_json};
use crate::presets::{presets_view, Preset, PresetView};
use crate::text::{concat2, concat3, strings};
use vstd::prelude::*;

verus! {

/// A task: what it is called, and the command that it runs in the project
/// directory, in a terminal that is always shown.
pub open spec fn task(label: Seq<char>, command: Seq<char>, args: Seq<JsonView>) -> JsonView {
    JsonView::Object(
        seq![
            ("label"@, JsonView::Text(label)),
            ("command"@, JsonView::Text(command)),
            ("args"@, JsonView::Array(args)),
            ("cwd"@, JsonView::Text("$ZED_WORKTREE_ROOT"@)),
            ("reveal"@, JsonView::Text("always"@)),
        ],
    )
}

/// The tools that the tasks run.
#[derive(Debug, PartialEq, Eq)]
pub struct Tools {
    pub cmake: String,
    pub size: String,
    pub probe_rs: String,
}

/// A list of strings.
pub open spec fn text_items(list: Seq<Seq<char>>) -> Seq<JsonView> {
    list.map_values(|s: Seq<char>| JsonView::Text(s))
}

/// The arguments by which `probe-rs` downloads a program: with the speed of the
/// probe where one is set.
pub open spec fn flash_args(chip: Seq<char>, speed: Option<u64>, elf: Seq<char>) -> Seq<JsonView> {
    let head = text_items(seq!["download"@, "--chip"@, chip]);
    let with_speed = match speed {
        Some(n) => head.push(JsonView::Text("--speed"@)).push(JsonView::Number(Some(n))),
        None => head,
    };
    with_speed.push(JsonView::Text(elf))
}

/// The tasks that every target has.
pub open spec fn build_tasks(preset: PresetView, cmake: Seq<char>, size: Seq<char>) -> Seq<
    JsonView,
> {
    let name = preset.name;
    seq![
        task(name + ": configure"@, cmake, text_items(seq!["--preset"@, name])),
        task(name + ": build"@, cmake, text_items(seq!["--build"@, "--preset"@, name])),
        task(
            name + ": clean"@,
            cmake,
            text_items(seq!["--build"@, "--preset"@, name, "--target"@, "clean"@]),
        ),
        task(name + ": size"@, size, text_items(seq![preset.elf_rel])),
    ]
}

/// The tasks that a target for a known chip has besides.
pub open spec fn chip_tasks(
    preset: PresetView,
    chip: Seq<char>,
    probe_rs: Seq<char>,
    speed: Option<u64>,
) -> Seq<JsonView> {
    let name = preset.name;
    seq![
        task(name + ": flash"@, probe_rs, flash_args(chip, speed, preset.elf_rel)),
        task(name + ": erase"@, probe_rs, text_items(seq!["erase"@, "--chip"@, chip])),
        task(name + ": reset"@, probe_rs, text_items(seq!["reset"@, "--chip"@, chip])),
    ]
}

/// The tasks of one target.
pub open spec fn target_tasks(preset: PresetView, tools: Tools, speed: Option<u64>) -> Seq<
    JsonView,
> {
    let build = build_tasks(preset, tools.cmake@, tools.size@);
    match preset.chip {
        Some(chip) => build + chip_tasks(preset, chip, tools.probe_rs@, speed),
        None => build,
    }
}

/// The tasks of all targets, target by target.
pub open spec fn all_tasks(presets: Seq<PresetView>, tools: Tools, speed: Option<u64>) -> Seq<
    JsonView,
>
    decreases presets.len(),
{
    if presets.len() == 0 {
        Seq::empty()
    } else {
        all_tasks(presets.drop_last(), tools, speed) + target_tasks(presets.last(), tools, speed)
    }
}

/// The string setting `key`, or `default` where the configuration has none.
pub open spec fn setting(
    config: Option<JsonView>,
    key: Seq<char>,
    default: Seq<char>,
) -> Seq<char> {
    match config {
        Some(doc) => match doc.get_str(key) {
            Some(text) => text,
            None => default,
        },
        None => default,
    }
}

/// The value of a configuration that may be missing.
pub open spec fn config_view(config: Option<Json>) -> Option<JsonView> {
    match config {
        Some(json) => Some(json@),
        None => None,
    }
}

/// The string setting `key`, or `default` where the configuration has none.
pub fn setting_or(config: &Option<Json>, key: &str, default: &str) -> (value: String)
    ensures
        value@ == setting(config_view(*config), key@, default@),
{
    match config {
        Some(doc) => match doc.get_str(key) {
            Some(text) => text.to_owned(),
            None => default.to_owned(),
        },
        None => default.to_owned(),
    }
}

/// The program of a project without presets.
pub open spec fn default_elf(config: Option<JsonView>) -> Seq<char> {
    setting(config, "buildDir"@, "build"@) + "/"@ + setting(config, "target"@, "fw"@) + ".elf"@
}

/// The tasks of a project without presets.
pub open spec fn plain_tasks(config: Option<JsonView>, tools: Tools) -> Seq<JsonView> {
    let build_dir = setting(config, "buildDir"@, "build"@);
    let chip = setting(config, "chip"@, "STM32F103C8"@);
    let toolchain = setting(config, "toolchainFile"@, "cmake/arm-gcc-toolchain.cmake"@);
    let elf = default_elf(config);
    seq![
        task(
            "stm32: configure"@,
            tools.cmake@,
            text_items(
                seq![
                    "-G"@,
                    "Ninja"@,
                    "-S"@,
                    "."@,
                    "-B"@,
                    build_dir,
                    "-DCMAKE_BUILD_TYPE=RelWithDebInfo"@,
                    "-DCMAKE_TOOLCHAIN_FILE="@ + toolchain,
                ],
            ),
        ),
        task("stm32: build"@, tools.cmake@, text_items(seq!["--build"@, build_dir])),
        task(
            "stm32: clean"@,
            tools.cmake@,
            text_items(seq!["--build"@, build_dir, "--target"@, "clean"@]),
        ),
        task("stm32: size"@, tools.size@, text_items(seq![elf])),
        task(
            "stm32: flash"@,
            tools.probe_rs@,
            text_items(seq!["download"@, "--chip"@, chip, elf]),
        ),
        task("stm32: erase"@, tools.probe_rs@, text_items(seq!["erase"@, "--chip"@, chip])),
        task("stm32: reset"@, tools.probe_rs@, text_items(seq!["reset"@, "--chip"@, chip])),
    ]
}

/// A task.
fn make_task(label: &str, command: &str, args: Items) -> (json: Json)
    ensures
        json@ == task(label@, command@, args@),
{
    let fields = Fields::new().with_text("label", label).with_text("command", command).with(
        "args",
        args.array(),
    ).with_text("cwd", "$ZED_WORKTREE_ROOT").with_text("reveal", "always");
    assert(fields@ =~= task(label@, command@, args@)->Object_0);
    fields.object()
}

/// The task `<name>: <verb>` of a target.
fn named_task(name: &str, verb: &str, command: &str, args: Items) -> (json: Json)
    ensures
        json@ == task(name@ + verb@, command@, args@),
{
    make_task(concat2(name, verb).as_str(), command, args)
}

/// The arguments by which `probe-rs` downloads a program.
fn make_flash_args(chip: &str, speed: Option<u64>, elf: &str) -> (args: Items)
    ensures
        args@ == flash_args(chip@, speed, elf@),
{
    let head = Items::new().with_text("download").with_text("--chip").with_text(chip);
    assert(head@ =~= text_items(seq!["download"@, "--chip"@, chip@]));
    let args = match speed {
        Some(n) => head.with_text("--speed").with(Json::Number(Some(n))),
        None => head,
    };
    args.with_text(elf)
}

/// Adds the tasks of one target.
fn add_target(items: Items, preset: &Preset, tools: &Tools, speed: Option<u64>) -> (longer: Items)
    ensures
        longer@ == items@ + target_tasks(preset@, *tools, speed),
{
    let name = preset.name.as_str();
    let cmake = tools.cmake.as_str();
    let elf = preset.elf_rel.as_str();
    let ghost view = preset@;
    let configure = Items::new().with_text("--preset").with_text(name);
    assert(configure@ =~= text_items(seq!["--preset"@, view.name]));
    let build = Items::new().with_text("--build").with_text("--preset").with_text(name);
    assert(build@ =~= text_items(seq!["--build"@, "--preset"@, view.name]));
    let clean = Items::new().with_text("--build").with_text("--preset").with_text(name).with_text(
        "--target",
    ).with_text("clean");
    assert(clean@ =~= text_items(
        seq!["--build"@, "--preset"@, view.name, "--target"@, "clean"@],
    ));
    let size = Items::new().with_text(elf);
    assert(size@ =~= text_items(seq![view.elf_rel]));
    let built = items.with(named_task(name, ": configure", cmake, configure)).with(
        named_task(name, ": build", cmake, build),
    ).with(named_task(name, ": clean", cmake, clean)).with(
        named_task(name, ": size", tools.size.as_str(), size),
    );
    assert(built@ =~= items@ + build_tasks(view, tools.cmake@, tools.size@));
    match &preset.chip {
        Some(chip) => {
            let probe_rs = tools.probe_rs.as_str();
            let flash = make_flash_args(chip.as_str(), speed, elf);
            let erase = Items::new().with_text("erase").with_text("--chip").with_text(
                chip.as_str(),
            );
            assert(erase@ =~= text_items(seq!["erase"@, "--chip"@, chip@]));
            let reset = Items::new().with_text("reset").with_text("--chip").with_text(
                chip.as_str(),
            );
            assert(reset@ =~= text_items(seq!["reset"@, "--chip"@, chip@]));
            let longer = built.with(named_task(name, ": flash", probe_rs, flash)).with(
                named_task(name, ": erase", probe_rs, erase),
            ).with(named_task(name, ": reset", probe_rs, reset));
            assert(longer@ =~= built@ + chip_tasks(view, chip@, tools.probe_rs@, speed));
            assert(longer@ =~= items@ + target_tasks(view, *tools, speed));
            longer
        },
        None => built,
    }
}

/// The tasks of a project with presets: each target is configured, built,
/// cleaned and measured, and if its chip is known also flashed, erased and
/// reset.
pub fn preset_tasks(presets: &Vec<Preset>, tools: &Tools, speed: Option<u64>) -> (tasks: Json)
    ensures
        tasks@ == JsonView::Array(all_tasks(presets_view(presets@), *tools, speed)),
{
    let mut items = Items::new();
    let ghost all = presets_view(presets@);
    for i in 0..presets.len()
        invariant
            all == presets_view(presets@),
            items@ == all_tasks(all.take(i as int), *tools, speed),
    {
        items = add_target(items, &presets[i], tools, speed);
        assert(all.take(i + 1).drop_last() =~= all.take(i as int));
        assert(all.take(i + 1).last() == presets@[i as int]@);
    }
    assert(all.take(all.len() as int) =~= all);
    items.array()
}

/// The tasks of a project without presets, by its configuration: build
/// directory, target, chip and toolchain file, each with a default.
pub fn default_tasks(tools: &Tools, config: &Option<Json>) -> (tasks: Json)
    ensures
        tasks@ == JsonView::Array(plain_tasks(config_view(*config), *tools)),
{
    let ghost view = config_view(*config);
    let build_dir = setting_or(config, "buildDir", "build");
    let target = setting_or(config, "target", "fw");
    let chip = setting_or(config, "chip", "STM32F103C8");
    let mut elf = concat3(build_dir.as_str(), "/", target.as_str());
    elf.append(".elf");
    assert(elf@ == default_elf(view));
    let toolchain = setting_or(config, "toolchainFile", "cmake/arm-gcc-toolchain.cmake");
    let toolchain_arg = concat2("-DCMAKE_TOOLCHAIN_FILE=", toolchain.as_str());
    let cmake = tools.cmake.as_str();
    let probe_rs = tools.probe_rs.as_str();

    let configure = Items::new().with_text("-G").with_text("Ninja").with_text("-S").with_text(
        ".",
    ).with_text("-B").with_text(build_dir.as_str()).with_text(
        "-DCMAKE_BUILD_TYPE=RelWithDebInfo",
    ).with_text(toolchain_arg.as_str());
    assert(configure@ =~= text_items(
        seq![
            "-G"@,
            "Ninja"@,
            "-S"@,
            "."@,
            "-B"@,
            build_dir@,
            "-DCMAKE_BUILD_TYPE=RelWithDebInfo"@,
            "-DCMAKE_TOOLCHAIN_FILE="@ + toolchain@,
        ],
    ));
    let build = Items::new().with_text("--build").with_text(build_dir.as_str());
    assert(build@ =~= text_items(seq!["--build"@, build_dir@]));
    let clean = Items::new().with_text("--build").with_text(build_dir.as_str()).with_text(
        "--target",
    ).with_text("clean");
    assert(clean@ =~= text_items(seq!["--build"@, build_dir@, "--target"@, "clean"@]));
    let size = Items::new().with_text(elf.as_str());
    assert(size@ =~= text_items(seq![elf@]));
    let flash = Items::new().with_text("download").with_text("--chip").with_text(
        chip.as_str(),
    ).with_text(elf.as_str());
    assert(flash@ =~= text_items(seq!["download"@, "--chip"@, chip@, elf@]));
    let erase = Items::new().with_text("erase").with_text("--chip").with_text(chip.as_str());
    assert(erase@ =~= text_items(seq!["erase"@, "--chip"@, chip@]));
    let reset = Items::new().with_text("reset").with_text("--chip").with_text(chip.as_str());
    assert(reset@ =~= text_items(seq!["reset"@, "--chip"@, chip@]));

    let items = Items::new().with(make_task("stm32: configure", cmake, configure)).with(
        make_task("stm32: build", cmake, build),
    ).with(make_task("stm32: clean", cmake, clean)).with(
        make_task("stm32: size", tools.size.as_str(), size),
    ).with(make_task("stm32: flash", probe_rs, flash)).with(
        make_task("stm32: erase", probe_rs, erase),
    ).with(make_task("stm32: reset", probe_rs, reset));
    assert(items@ =~= plain_tasks(view, *tools));
    items.array()
}

/// The tasks that a document lists: the document itself is the list, or its
/// field `tasks` is.
pub open spec fn task_entries(doc: JsonView) -> Seq<JsonView> {
    match doc.as_array() {
        Some(items) => items,
        None => match doc.get("tasks"@) {
            Some(tasks) => match tasks.as_array() {
                Some(items) => items,
                None => Seq::empty(),
            },
            None => Seq::empty(),
        },
    }
}

/// The labels of those tasks that have one, in order.
pub open spec fn labels(items: Seq<JsonView>) -> Seq<Seq<char>>
    decreases items.len(),
{
    if items.len() == 0 {
        Seq::empty()
    } else {
        let earlier = labels(items.drop_last());
        match items.last().get_str("label"@) {
            Some(label) => earlier.push(label),
            None => earlier,
        }
    }
}

/// The labels of the tasks in the text of `tasks.json`.
pub open spec fn labels_in(text: Option<String>) -> Seq<Seq<char>> {
    match text {
        Some(t) => match json_parsed(t@) {
            Some(doc) => labels(task_entries(doc)),
            None => Seq::empty(),
        },
        None => Seq::empty(),
    }
}

/// The labels of the tasks that a document lists.
pub fn document_labels(doc: &Json) -> (found: Vec<String>)
    ensures
        strings(found@) == labels(task_entries(doc@)),
{
    let mut found: Vec<String> = Vec::new();
    let items = match doc.as_array() {
        Some(items) => items,
        None => match doc.get("tasks") {
            Some(tasks) => match tasks.as_array() {
                Some(items) => items,
                None => {
                    assert(strings(found@) =~= Seq::empty());
                    return found;
                },
            },
            None => {
                assert(strings(found@) =~= Seq::empty());
                return found;
            },
        },
    };
    let ghost all = items_view(items@);
    for i in 0..items.len()
        invariant
            all == items_view(items@),
            strings(found@) == labels(all.take(i as int)),
    {
        assert(all.take(i + 1).drop_last() =~= all.take(i as int));
        assert(all.take(i + 1).last() == items@[i as int]@);
        let ghost earlier = found@;
        if let Some(label) = items[i].get_str("label") {
            found.push(label.to_owned());
            assert(strings(found@) =~= strings(earlier).push(label@));
        }
    }
    assert(all.take(all.len() as int) =~= all);
    found
}

/// The labels of the tasks in the text of `tasks.json`. There are none where it
/// could not be read or is no JSON document.
pub fn read_tasks_labels(text: &Option<String>) -> (found: Vec<String>)
    ensures
        strings(found@) == labels_in(*text),
{
    let none: Vec<String> = Vec::new();
    assert(strings(none@) =~= Seq::empty());
    match text {
        Some(text) => match parse_json(text.as_str()) {
            Some(doc) => document_labels(&doc),
            None => none,
        },
        None => none,
    }
}

} // verus!
