//! Which configuration files an embedded project is given when it is opened, and
//! what they hold. Only missing files are written; none is ever overwritten.

use crate::debug::{
    all_scenarios, configured_chip, default_debug, lemma_scenario_names, plain_scenario,
    preset_debug, scenario,
};
use crate::json::{fields_view, Fields, Json, JsonView};
use crate::json_text::{
    distinct_names, json_parsed, json_pretty, parse_json, plain_document, print_json, writable,
};
use crate::presets::{
    are_targets_of, discover_presets, listed_in, optional_text, parts_cut_cleanly, presets_view,
    Preset, PresetView, ProjectRoot,
};
use crate::project::{embedded, is_embedded_project, project_title, ProjectFiles};
use crate::tasks::{
    all_tasks, build_tasks, chip_tasks, config_view, default_tasks, flash_args, plain_tasks,
    preset_tasks, target_tasks, task, text_items, Tools,
};
use crate::text::{concat3, join, joined, strings};
use vstd::prelude::*;

verus! {

/// What is found in a project directory and on the machine before configuration
/// files are written.
#[derive(Debug, PartialEq, Eq)]
pub struct ProjectState {
    pub root: ProjectRoot,
    pub files: ProjectFiles,
    /// Whether `.zed/tasks.json` is a file.
    pub tasks_json: bool,
    /// The text of `.zed/embedded.json`, if it can be read.
    pub config_text: Option<String>,
    /// The text of `CMakePresets.json`, if it can be read.
    pub presets_text: Option<String>,
    pub tools: Tools,
}

/// A file to be written into `.zed`.
#[derive(Debug, PartialEq, Eq)]
pub struct PlannedFile {
    pub name: String,
    pub contents: String,
}

/// The files to be written, one after the other, and then what to report: a
/// message if files were written, nothing if there was nothing to do.
#[derive(Debug, PartialEq, Eq)]
pub struct Plan {
    pub files: Vec<PlannedFile>,
    pub message: Option<String>,
}

/// The configuration that a text holds, if it holds one.
pub open spec fn config_in(text: Option<String>) -> Option<JsonView> {
    match text {
        Some(t) => json_parsed(t@),
        None => None,
    }
}

/// The configuration in the text of `.zed/embedded.json`, if it could be read
/// and is a JSON document.
pub fn read_config(text: &Option<String>) -> (config: Option<Json>)
    ensures
        config_view(config) == config_in(*text),
{
    match text {
        Some(text) => parse_json(text.as_str()),
        None => None,
    }
}

/// The speed of the probe that the configuration sets.
pub open spec fn probe_speed(config: Option<JsonView>) -> Option<u64> {
    match config {
        Some(doc) => match doc.get("speed"@) {
            Some(value) => value.as_u64(),
            None => None,
        },
        None => None,
    }
}

/// What `tasks.json` is to hold.
pub open spec fn tasks_document(
    presets: Seq<PresetView>,
    config: Option<JsonView>,
    tools: Tools,
) -> JsonView {
    if presets.len() == 0 {
        JsonView::Array(plain_tasks(config, tools))
    } else {
        JsonView::Array(all_tasks(presets, tools, probe_speed(config)))
    }
}

/// What `debug.json` is to hold.
pub open spec fn debug_document(presets: Seq<PresetView>, config: Option<JsonView>) -> JsonView {
    if presets.len() == 0 {
        JsonView::Array(seq![plain_scenario(config)])
    } else {
        JsonView::Array(all_scenarios(presets))
    }
}

/// The chip of the first target whose chip is known.
pub open spec fn first_chip(presets: Seq<PresetView>) -> Option<Seq<char>>
    decreases presets.len(),
{
    if presets.len() == 0 {
        None
    } else if presets[0].chip is Some {
        presets[0].chip
    } else {
        first_chip(presets.skip(1))
    }
}

/// What `embedded.json` is to hold: the chip of the first target whose chip is
/// known and the build directory of the first target, each with a default.
pub open spec fn embedded_document(presets: Seq<PresetView>) -> JsonView {
    let chip = match first_chip(presets) {
        Some(name) => name,
        None => "STM32F103C8"@,
    };
    let build_dir = if presets.len() > 0 {
        presets[0].build_dir_rel
    } else {
        "build"@
    };
    JsonView::Object(
        seq![
            ("_readme"@, JsonView::Text("由 Zed 嵌入式支持自动生成；chip 可用 `probe-rs chip list` 查询。"@)),
            ("backend"@, JsonView::Text("probe-rs"@)),
            ("chip"@, JsonView::Text(chip)),
            ("buildDir"@, JsonView::Text(build_dir)),
            ("autoDownload"@, JsonView::Bool(true)),
        ],
    )
}

/// The document `doc`, called `name`, where it is missing.
pub open spec fn if_missing(present: bool, name: Seq<char>, doc: JsonView) -> Seq<
    (Seq<char>, JsonView),
> {
    if present {
        Seq::empty()
    } else {
        seq![(name, doc)]
    }
}

/// The documents that a project lacks, in the order in which they are written.
/// A project that is not an embedded one lacks none.
pub open spec fn lacking(state: ProjectState, presets: Seq<PresetView>) -> Seq<
    (Seq<char>, JsonView),
> {
    let config = config_in(state.config_text);
    if embedded(state.files) {
        if_missing(
            state.tasks_json,
            "tasks.json"@,
            tasks_document(presets, config, state.tools),
        ) + if_missing(
            state.files.debug_json,
            "debug.json"@,
            debug_document(presets, config),
        ) + if_missing(state.files.embedded_json, "embedded.json"@, embedded_document(presets))
    } else {
        Seq::empty()
    }
}

/// The texts of documents.
pub open spec fn printed(docs: Seq<(Seq<char>, JsonView)>) -> Seq<(Seq<char>, Seq<char>)> {
    docs.map_values(|doc: (Seq<char>, JsonView)| (doc.0, json_pretty(doc.1)))
}

/// The names of documents.
pub open spec fn names(docs: Seq<(Seq<char>, JsonView)>) -> Seq<Seq<char>> {
    docs.map_values(|doc: (Seq<char>, JsonView)| doc.0)
}

/// The report that the files `list` were written into the project `root`.
pub open spec fn report(root: Seq<char>, list: Seq<Seq<char>>) -> Seq<char> {
    "已为 "@ + root + " 生成 "@ + joined(list, "、"@)
}

/// What to report after `docs` were written.
pub open spec fn message_for(root: Seq<char>, docs: Seq<(Seq<char>, JsonView)>) -> Option<
    Seq<char>,
> {
    if docs.len() == 0 {
        None
    } else {
        Some(report(root, names(docs)))
    }
}

/// The names and contents of planned files.
pub open spec fn files_view(files: Seq<PlannedFile>) -> Seq<(Seq<char>, Seq<char>)> {
    files.map_values(|file: PlannedFile| (file.name@, file.contents@))
}

/// Whether `plan` writes what the project lacks, where `presets` are its
/// targets, and reports it. What is written can be read back.
pub open spec fn is_plan_for(state: ProjectState, presets: Seq<PresetView>, plan: Plan) -> bool {
    let docs = lacking(state, presets);
    &&& files_view(plan.files@) == printed(docs)
    &&& optional_text(plan.message) == message_for(state.root.text@, docs)
    &&& forall|i: int|
        0 <= i < plan.files@.len() ==> json_parsed((#[trigger] plan.files@[i]).contents@) == Some(
            docs[i].1,
        )
}

/// Whether some configuration file is missing.
pub open spec fn incomplete(state: ProjectState) -> bool {
    !state.tasks_json || !state.files.debug_json || !state.files.embedded_json
}

/// Whether every document in `items` nests at most `depth` deep, and is plain.
spec fn all_plain(items: Seq<JsonView>, depth: nat) -> bool {
    forall|i: int| 0 <= i < items.len() ==> plain_document(#[trigger] items[i], depth)
}

proof fn lemma_text_items_plain(list: Seq<Seq<char>>)
    ensures
        all_plain(text_items(list), 61),
{
}

proof fn lemma_task_plain(label: Seq<char>, command: Seq<char>, args: Seq<JsonView>)
    requires
        all_plain(args, 61),
    ensures
        plain_document(task(label, command, args), 63),
{
    reveal_strlit("label");
    reveal_strlit("command");
    reveal_strlit("args");
    reveal_strlit("cwd");
    reveal_strlit("reveal");
    let fields = task(label, command, args)->Object_0;
    assert(fields[0].0.len() == 5);
    assert(fields[1].0.len() == 7);
    assert(fields[2].0.len() == 4);
    assert(fields[3].0.len() == 3);
    assert(fields[4].0.len() == 6);
    assert(distinct_names(fields));
    assert(plain_document(JsonView::Array(args), 62));
    assert forall|i: int| 0 <= i < fields.len() implies plain_document(
        (#[trigger] fields[i]).1,
        62,
    ) by {
        if i == 2 {
            assert(fields[i].1 == JsonView::Array(args));
        } else {
            assert(fields[i].1 is Text);
        }
    }
}

proof fn lemma_target_tasks_plain(preset: PresetView, tools: Tools, speed: Option<u64>)
    ensures
        all_plain(target_tasks(preset, tools, speed), 63),
{
    let name = preset.name;
    let cmake = tools.cmake@;
    lemma_text_items_plain(seq!["--preset"@, name]);
    lemma_task_plain(name + ": configure"@, cmake, text_items(seq!["--preset"@, name]));
    lemma_text_items_plain(seq!["--build"@, "--preset"@, name]);
    lemma_task_plain(name + ": build"@, cmake, text_items(seq!["--build"@, "--preset"@, name]));
    let clean = seq!["--build"@, "--preset"@, name, "--target"@, "clean"@];
    lemma_text_items_plain(clean);
    lemma_task_plain(name + ": clean"@, cmake, text_items(clean));
    lemma_text_items_plain(seq![preset.elf_rel]);
    lemma_task_plain(name + ": size"@, tools.size@, text_items(seq![preset.elf_rel]));
    assert(all_plain(build_tasks(preset, cmake, tools.size@), 63));
    if let Some(chip) = preset.chip {
        let probe_rs = tools.probe_rs@;
        lemma_text_items_plain(seq!["download"@, "--chip"@, chip]);
        assert(all_plain(flash_args(chip, speed, preset.elf_rel), 61));
        lemma_task_plain(name + ": flash"@, probe_rs, flash_args(chip, speed, preset.elf_rel));
        let erase = seq!["erase"@, "--chip"@, chip];
        lemma_text_items_plain(erase);
        lemma_task_plain(name + ": erase"@, probe_rs, text_items(erase));
        let reset = seq!["reset"@, "--chip"@, chip];
        lemma_text_items_plain(reset);
        lemma_task_plain(name + ": reset"@, probe_rs, text_items(reset));
        assert(all_plain(chip_tasks(preset, chip, probe_rs, speed), 63));
    }
}

proof fn lemma_all_tasks_plain(presets: Seq<PresetView>, tools: Tools, speed: Option<u64>)
    ensures
        all_plain(all_tasks(presets, tools, speed), 63),
    decreases presets.len(),
{
    if presets.len() > 0 {
        lemma_all_tasks_plain(presets.drop_last(), tools, speed);
        lemma_target_tasks_plain(presets.last(), tools, speed);
    }
}

proof fn lemma_plain_tasks_plain(config: Option<JsonView>, tools: Tools)
    ensures
        all_plain(plain_tasks(config, tools), 63),
{
    let items = plain_tasks(config, tools);
    assert forall|i: int| 0 <= i < items.len() implies plain_document(#[trigger] items[i], 63) by {
        let fields = items[i]->Object_0;
        let args = fields[2].1->Array_0;
        let label = fields[0].1->Text_0;
        let command = fields[1].1->Text_0;
        assert(items[i] == task(label, command, args));
        assert forall|j: int| 0 <= j < args.len() implies plain_document(
            #[trigger] args[j],
            61,
        ) by {
            assert(args[j] is Text);
        }
        lemma_task_plain(label, command, args);
    }
}

proof fn lemma_scenario_plain(
    label: Seq<char>,
    program: Seq<char>,
    build: Seq<char>,
    chip: Option<Seq<char>>,
)
    ensures
        plain_document(scenario(label, program, build, chip), 63),
{
    lemma_scenario_names(label, program, build, chip);
    let fields = scenario(label, program, build, chip)->Object_0;
    assert forall|i: int| 0 <= i < fields.len() implies plain_document(
        (#[trigger] fields[i]).1,
        62,
    ) by {
        assert(fields[i].1 is Text || fields[i].1 is Bool);
    }
}

/// The fields of `embedded.json` have different names, and none is called `speed`.
pub proof fn lemma_embedded_names(presets: Seq<PresetView>)
    ensures
        distinct_names(embedded_document(presets)->Object_0),
        forall|i: int|
            0 <= i < embedded_document(presets)->Object_0.len() ==> (
            #[trigger] embedded_document(presets)->Object_0[i]).0 != "speed"@,
{
    reveal_strlit("_readme");
    reveal_strlit("backend");
    reveal_strlit("chip");
    reveal_strlit("buildDir");
    reveal_strlit("autoDownload");
    reveal_strlit("speed");
    let fields = embedded_document(presets)->Object_0;
    assert(fields[0].0.len() == 7 && fields[0].0[0] == '_');
    assert(fields[1].0.len() == 7 && fields[1].0[0] == 'b');
    assert(fields[2].0.len() == 4);
    assert(fields[3].0.len() == 8);
    assert(fields[4].0.len() == 12);
    assert("speed"@.len() == 5);
}

proof fn lemma_documents_writable(presets: Seq<PresetView>, config: Option<JsonView>, tools: Tools)
    ensures
        writable(tasks_document(presets, config, tools)),
        writable(debug_document(presets, config)),
        writable(embedded_document(presets)),
{
    lemma_all_tasks_plain(presets, tools, probe_speed(config));
    lemma_plain_tasks_plain(config, tools);
    let scenarios = debug_document(presets, config)->Array_0;
    assert forall|i: int| 0 <= i < scenarios.len() implies plain_document(
        #[trigger] scenarios[i],
        63,
    ) by {
        let label = scenarios[i]->Object_0[0].1->Text_0;
        let program = scenarios[i]->Object_0[3].1->Text_0;
        let build = scenarios[i]->Object_0[5].1->Text_0;
        let chip = if presets.len() == 0 {
            configured_chip(config)
        } else {
            presets[i].chip
        };
        assert(scenarios[i] == scenario(label, program, build, chip));
        lemma_scenario_plain(label, program, build, chip);
    }
    lemma_embedded_names(presets);
    let fields = embedded_document(presets)->Object_0;
    assert forall|i: int| 0 <= i < fields.len() implies plain_document(
        (#[trigger] fields[i]).1,
        63,
    ) by {
        assert(fields[i].1 is Text || fields[i].1 is Bool);
    }
}

/// The speed of the probe that the configuration sets.
pub fn read_speed(config: &Option<Json>) -> (speed: Option<u64>)
    ensures
        speed == probe_speed(config_view(*config)),
{
    match config {
        Some(doc) => match doc.get("speed") {
            Some(value) => value.as_u64(),
            None => None,
        },
        None => None,
    }
}

/// What `embedded.json` is to hold.
pub fn embedded_template(presets: &Vec<Preset>) -> (template: Json)
    ensures
        template@ == embedded_document(presets_view(presets@)),
{
    let ghost all = presets_view(presets@);
    let mut chip = "STM32F103C8".to_owned();
    let mut i: usize = 0;
    let mut found = false;
    assert(all.skip(0) =~= all);
    while i < presets.len() && !found
        invariant
            all == presets_view(presets@),
            i <= presets@.len(),
            found ==> first_chip(all) == Some(chip@),
            !found ==> first_chip(all) == first_chip(all.skip(i as int)) && chip@
                == "STM32F103C8"@,
        decreases presets@.len() - i,
    {
        assert(all.skip(i as int)[0] == presets@[i as int]@);
        assert(all.skip(i as int).skip(1) =~= all.skip(i + 1));
        if let Some(name) = &presets[i].chip {
            chip = name.clone();
            found = true;
        }
        i = i + 1;
    }
    let build_dir = if presets.len() > 0 {
        assert(all[0] == presets@[0]@);
        presets[0].build_dir_rel.clone()
    } else {
        "build".to_owned()
    };
    let fields = Fields::new().with_text(
        "_readme",
        "由 Zed 嵌入式支持自动生成；chip 可用 `probe-rs chip list` 查询。",
    ).with_text("backend", "probe-rs").with_text("chip", chip.as_str()).with_text(
        "buildDir",
        build_dir.as_str(),
    ).with("autoDownload", Json::Bool(true));
    assert(fields@ =~= embedded_document(all)->Object_0);
    fields.object()
}

/// The documents that a project lacks, where `presets` are its targets.
fn missing_documents(state: &ProjectState, presets: &Vec<Preset>) -> (docs: Vec<(String, Json)>)
    ensures
        fields_view(docs@) == lacking(*state, presets_view(presets@)),
        forall|i: int| 0 <= i < docs@.len() ==> writable((#[trigger] docs@[i]).1@),
{
    let ghost all = presets_view(presets@);
    let mut docs: Vec<(String, Json)> = Vec::new();
    if !is_embedded_project(&state.files) {
        assert(fields_view(docs@) =~= lacking(*state, all));
        return docs;
    }
    let config = read_config(&state.config_text);
    proof {
        lemma_documents_writable(all, config_view(config), state.tools);
    }
    if !state.tasks_json {
        let tasks = if presets.len() == 0 {
            default_tasks(&state.tools, &config)
        } else {
            preset_tasks(presets, &state.tools, read_speed(&config))
        };
        docs.push(("tasks.json".to_owned(), tasks));
    }
    if !state.files.debug_json {
        let scenarios = if presets.len() == 0 {
            default_debug(&config)
        } else {
            preset_debug(presets)
        };
        docs.push(("debug.json".to_owned(), scenarios));
    }
    if !state.files.embedded_json {
        docs.push(("embedded.json".to_owned(), embedded_template(presets)));
    }
    assert(fields_view(docs@) =~= lacking(*state, all));
    docs
}

/// The files that a project lacks, where `presets` are its targets, and what to
/// report when they are written.
pub fn plan_files(state: &ProjectState, presets: &Vec<Preset>) -> (plan: Plan)
    ensures
        is_plan_for(*state, presets_view(presets@), plan),
{
    let docs = missing_documents(state, presets);
    let ghost all = fields_view(docs@);
    let mut files: Vec<PlannedFile> = Vec::new();
    let mut list: Vec<String> = Vec::new();
    assert(files_view(files@) =~= printed(all).take(0));
    assert(strings(list@) =~= names(all).take(0));
    for i in 0..docs.len()
        invariant
            all == fields_view(docs@),
            forall|k: int| 0 <= k < docs@.len() ==> writable((#[trigger] docs@[k]).1@),
            files@.len() == i,
            files_view(files@) == printed(all).take(i as int),
            strings(list@) == names(all).take(i as int),
            forall|k: int|
                0 <= k < files@.len() ==> json_parsed((#[trigger] files@[k]).contents@) == Some(
                    all[k].1,
                ),
    {
        let ghost done = files_view(files@);
        let ghost earlier = strings(list@);
        assert(all[i as int] == (docs@[i as int].0@, docs@[i as int].1@));
        let contents = print_json(&docs[i].1);
        let ghost entry = (docs@[i as int].0@, contents@);
        list.push(docs[i].0.clone());
        assert(strings(list@) =~= earlier.push(docs@[i as int].0@));
        assert(strings(list@) =~= names(all).take(i + 1));
        files.push(PlannedFile { name: docs[i].0.clone(), contents });
        assert(files_view(files@) =~= done.push(entry));
        assert(files_view(files@) =~= printed(all).take(i + 1));
    }
    assert(printed(all).take(all.len() as int) =~= printed(all));
    if docs.len() == 0 {
        return Plan { files, message: None };
    }
    assert(names(all).take(all.len() as int) =~= names(all));
    let mut message = concat3("已为 ", state.root.text.as_str(), " 生成 ");
    message.append(join(&list, "、").as_str());
    Plan { files, message: Some(message) }
}

/// The files that the project lacks and what to report when they are written.
/// The result is `None` where files are missing and the chip codes cannot be cut
/// out of the part name of some target.
pub fn generate(state: &ProjectState) -> (plan: Option<Plan>)
    ensures
        plan is None <==> embedded(state.files) && incomplete(*state) && !parts_cut_cleanly(
            listed_in(state.presets_text),
        ),
        plan matches Some(p) ==> exists|presets: Seq<PresetView>|
            {
                &&& #[trigger] is_plan_for(*state, presets, p)
                &&& embedded(state.files) && incomplete(*state) ==> are_targets_of(
                    listed_in(state.presets_text),
                    project_title(state.files.cmake_lists),
                    state.root,
                    presets,
                )
            },
{
    if is_embedded_project(&state.files) && (!state.tasks_json || !state.files.debug_json
        || !state.files.embedded_json) {
        match discover_presets(&state.presets_text, &state.files.cmake_lists, &state.root) {
            Some(presets) => Some(plan_files(state, &presets)),
            None => None,
        }
    } else {
        let none: Vec<Preset> = Vec::new();
        Some(plan_files(state, &none))
    }
}

/// Whether the project has the configuration file `name`.
pub open spec fn has_file(state: ProjectState, name: Seq<char>) -> bool {
    ||| name == "tasks.json"@ && state.tasks_json
    ||| name == "debug.json"@ && state.files.debug_json
    ||| name == "embedded.json"@ && state.files.embedded_json
}

/// Whether `after` is the project `before` with the files written: the
/// configuration files are there that were there or were written, and the CMake
/// files are as they were.
pub open spec fn follows(
    before: ProjectState,
    files: Seq<(Seq<char>, Seq<char>)>,
    after: ProjectState,
) -> bool {
    let written = files.map_values(|file: (Seq<char>, Seq<char>)| file.0);
    &&& after.tasks_json == (before.tasks_json || written.contains("tasks.json"@))
    &&& after.files.debug_json == (before.files.debug_json || written.contains("debug.json"@))
    &&& after.files.embedded_json == (before.files.embedded_json || written.contains(
        "embedded.json"@,
    ))
    &&& after.files.cmake_presets == before.files.cmake_presets
    &&& after.files.mcu_cmake == before.files.mcu_cmake
    &&& after.files.cmake_lists == before.files.cmake_lists
}

proof fn lemma_file_names_differ()
    ensures
        "tasks.json"@ != "debug.json"@,
        "tasks.json"@ != "embedded.json"@,
        "debug.json"@ != "embedded.json"@,
{
    reveal_strlit("tasks.json");
    reveal_strlit("debug.json");
    reveal_strlit("embedded.json");
    assert("tasks.json"@[0] == 't');
    assert("debug.json"@[0] == 'd');
    assert("embedded.json"@[0] == 'e');
}

/// The files of a plan are called as the documents that the project lacks.
pub proof fn lemma_planned_names(
    state: ProjectState,
    presets: Seq<PresetView>,
    plan: Plan,
    i: int,
)
    requires
        is_plan_for(state, presets, plan),
        0 <= i < plan.files@.len(),
    ensures
        i < lacking(state, presets).len(),
        plan.files@[i].name@ == lacking(state, presets)[i].0,
{
    let docs = lacking(state, presets);
    assert(files_view(plan.files@).len() == docs.len());
    assert(files_view(plan.files@)[i].0 == plan.files@[i].name@);
    assert(printed(docs)[i].0 == docs[i].0);
}

/// Each file of a plan is one of the three configuration files, and what it holds
/// is read back as the document that was meant.
pub proof fn law_written_files_are_read_back(
    state: ProjectState,
    presets: Seq<PresetView>,
    plan: Plan,
    i: int,
)
    requires
        is_plan_for(state, presets, plan),
        0 <= i < plan.files@.len(),
    ensures
        ({
            let name = plan.files@[i].name@;
            let config = config_in(state.config_text);
            let read = json_parsed(plan.files@[i].contents@);
            &&& name == "tasks.json"@ || name == "debug.json"@ || name == "embedded.json"@
            &&& name == "tasks.json"@ ==> read == Some(
                tasks_document(presets, config, state.tools),
            )
            &&& name == "debug.json"@ ==> read == Some(debug_document(presets, config))
            &&& name == "embedded.json"@ ==> read == Some(embedded_document(presets))
        }),
{
    lemma_file_names_differ();
    lemma_planned_names(state, presets, plan, i);
}

/// A file that is there is never written.
pub proof fn law_only_missing_files_are_written(
    state: ProjectState,
    presets: Seq<PresetView>,
    plan: Plan,
    i: int,
)
    requires
        is_plan_for(state, presets, plan),
        0 <= i < plan.files@.len(),
    ensures
        !has_file(state, plan.files@[i].name@),
{
    lemma_file_names_differ();
    lemma_planned_names(state, presets, plan, i);
}

/// Once the files of a plan are written, an embedded project stays one and has all
/// its configuration files, and another is left alone. Either way nothing is left
/// to be written or reported, whatever the targets are then.
pub proof fn law_second_run_writes_nothing(
    before: ProjectState,
    presets: Seq<PresetView>,
    plan: Plan,
    after: ProjectState,
    later_presets: Seq<PresetView>,
    later_plan: Plan,
)
    requires
        is_plan_for(before, presets, plan),
        follows(before, files_view(plan.files@), after),
        is_plan_for(after, later_presets, later_plan),
    ensures
        embedded(before.files) == embedded(after.files),
        embedded(before.files) ==> !incomplete(after),
        !embedded(before.files) ==> plan.files@.len() == 0 && plan.message is None,
        later_plan.files@.len() == 0,
        later_plan.message is None,
{
    lemma_file_names_differ();
    let docs = lacking(before, presets);
    let files = files_view(plan.files@);
    let written = files.map_values(|file: (Seq<char>, Seq<char>)| file.0);
    assert forall|k: int| 0 <= k < docs.len() implies written.contains((#[trigger] docs[k]).0) by {
        assert(written[k] == docs[k].0);
    }
    if embedded(before.files) {
        if !before.tasks_json {
            assert(docs[0].0 == "tasks.json"@);
        }
        if !before.files.debug_json {
            let k: int = if before.tasks_json {
                0
            } else {
                1
            };
            assert(docs[k].0 == "debug.json"@);
        }
        if !before.files.embedded_json {
            let k = docs.len() - 1;
            assert(docs[k].0 == "embedded.json"@);
        }
    } else {
        assert(docs.len() == 0);
        assert(written.len() == 0);
    }
    assert(lacking(after, later_presets) =~= Seq::empty());
    assert(files_view(later_plan.files@).len() == 0);
    assert(files.len() == docs.len());
}

} // verus!
