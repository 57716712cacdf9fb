//! What is written when an embedded project is opened.

use crate::debug::{all_scenarios, plain_scenario};
use crate::generate::{
    config_in, embedded_document, files_view, first_chip, incomplete, is_plan_for, lacking,
    lemma_embedded_names, lemma_planned_names, message_for, names, printed, probe_speed, Plan,
    PlannedFile, ProjectState,
};
use crate::json::JsonView;
use crate::json_text::{json_parsed, json_pretty};
use crate::laws::lemma_field_at;
use crate::presets::PresetView;
use crate::project::embedded;
use crate::tasks::{all_tasks, plain_tasks};
use crate::text::joined;
use vstd::prelude::*;

verus! {

/// The names of the files that a plan writes.
pub open spec fn written(plan: Plan) -> Seq<Seq<char>> {
    Seq::new(plan.files@.len(), |i: int| plan.files@[i].name@)
}

/// `name` where it is wanted.
pub open spec fn where_wanted(wanted: bool, name: Seq<char>) -> Seq<Seq<char>> {
    if wanted {
        seq![name]
    } else {
        Seq::empty()
    }
}

proof fn lemma_written(state: ProjectState, presets: Seq<PresetView>, plan: Plan)
    requires
        is_plan_for(state, presets, plan),
    ensures
        written(plan) == names(lacking(state, presets)),
{
    let docs = lacking(state, presets);
    assert(files_view(plan.files@).len() == docs.len());
    assert forall|i: int| 0 <= i < docs.len() implies written(plan)[i] == names(docs)[i] by {
        lemma_planned_names(state, presets, plan, i);
    }
    assert(written(plan) =~= names(docs));
}

/// An embedded project gets the tasks, the debug scenarios and the configuration that
/// it lacks, in this order, and no other file; another project gets none.
pub proof fn law_what_is_missing_is_written(
    state: ProjectState,
    presets: Seq<PresetView>,
    plan: Plan,
)
    requires
        is_plan_for(state, presets, plan),
    ensures
        embedded(state.files) ==> written(plan) == where_wanted(!state.tasks_json, "tasks.json"@)
            + where_wanted(!state.files.debug_json, "debug.json"@) + where_wanted(
            !state.files.embedded_json,
            "embedded.json"@,
        ),
        !embedded(state.files) ==> written(plan).len() == 0,
        incomplete(state) <==> !(state.tasks_json && state.files.debug_json
            && state.files.embedded_json),
{
    lemma_written(state, presets, plan);
    if embedded(state.files) {
        assert(written(plan) =~= where_wanted(!state.tasks_json, "tasks.json"@) + where_wanted(
            !state.files.debug_json,
            "debug.json"@,
        ) + where_wanted(!state.files.embedded_json, "embedded.json"@));
    }
}

/// The report names the project and the files that were written; without any there is
/// none.
pub proof fn law_report(state: ProjectState, presets: Seq<PresetView>, plan: Plan)
    requires
        is_plan_for(state, presets, plan),
    ensures
        plan.message is None <==> plan.files@.len() == 0,
        plan.message matches Some(message) ==> {
            let start = "已为 "@ + state.root.text@ + " 生成 "@;
            let list = written(plan);
            &&& list.len() == 1 ==> message@ == start + list[0]
            &&& list.len() == 2 ==> message@ == start + (list[0] + "、"@ + list[1])
            &&& list.len() == 3 ==> message@ == start + (list[0] + "、"@ + list[1] + "、"@
                + list[2])
        },
{
    lemma_written(state, presets, plan);
    let docs = lacking(state, presets);
    let list = written(plan);
    assert(files_view(plan.files@).len() == docs.len());
    assert(message_for(state.root.text@, docs) is None <==> docs.len() == 0);
    reveal_with_fuel(joined, 3);
    if list.len() == 2 {
        assert(list.drop_last()[0] == list[0]);
        assert(joined(list, "、"@) == list[0] + "、"@ + list[1]);
    }
    if list.len() == 3 {
        assert(list.drop_last().drop_last()[0] == list[0]);
        assert(list.drop_last().last() == list[1]);
        assert(joined(list.drop_last(), "、"@) == list[0] + "、"@ + list[1]);
        assert(joined(list, "、"@) == list[0] + "、"@ + list[1] + "、"@ + list[2]);
    }
}

/// Whether `config` is the document in `.zed/embedded.json`, if that can be read and
/// is one.
pub open spec fn has_config(state: ProjectState, config: Option<JsonView>) -> bool {
    match state.config_text {
        Some(text) => config == json_parsed(text@),
        None => config is None,
    }
}

/// Whether the configuration sets the probe speed `speed`: an unsigned integer, or
/// none.
pub open spec fn sets_speed(config: Option<JsonView>, speed: Option<u64>) -> bool {
    ||| config matches Some(doc) && doc.get("speed"@) == Some(JsonView::Number(speed))
    ||| {
        &&& speed is None
        &&& config matches Some(doc) ==> !(doc.get("speed"@) matches Some(n) && n is Number)
    }
}

/// `tasks.json` holds the tasks of the targets, with the probe speed of the
/// configuration, or, without targets, those of the configuration. It is written as
/// indented text that is read back as them.
pub proof fn law_written_tasks(
    state: ProjectState,
    presets: Seq<PresetView>,
    plan: Plan,
    i: int,
    config: Option<JsonView>,
    speed: Option<u64>,
)
    requires
        is_plan_for(state, presets, plan),
        0 <= i < plan.files@.len(),
        plan.files@[i].name@ == "tasks.json"@,
        has_config(state, config),
        sets_speed(config, speed),
    ensures
        ({
            let doc = if presets.len() > 0 {
                JsonView::Array(all_tasks(presets, state.tools, speed))
            } else {
                JsonView::Array(plain_tasks(config, state.tools))
            };
            &&& json_parsed(plan.files@[i].contents@) == Some(doc)
            &&& plan.files@[i].contents@ == json_pretty(doc)
        }),
{
    crate::generate::law_written_files_are_read_back(state, presets, plan, i);
    lemma_text_of(state, presets, plan, i);
    assert(config == config_in(state.config_text));
    assert(speed == probe_speed(config));
}

proof fn lemma_text_of(state: ProjectState, presets: Seq<PresetView>, plan: Plan, i: int)
    requires
        is_plan_for(state, presets, plan),
        0 <= i < plan.files@.len(),
    ensures
        json_parsed(plan.files@[i].contents@) matches Some(doc) && plan.files@[i].contents@
            == json_pretty(doc),
{
    lemma_planned_names(state, presets, plan, i);
    let docs = lacking(state, presets);
    assert(files_view(plan.files@)[i].1 == plan.files@[i].contents@);
    assert(printed(docs)[i].1 == json_pretty(docs[i].1));
}

/// `debug.json` holds the scenarios of the targets, or, without targets, the one of
/// the configuration.
pub proof fn law_written_scenarios(
    state: ProjectState,
    presets: Seq<PresetView>,
    plan: Plan,
    i: int,
    config: Option<JsonView>,
)
    requires
        is_plan_for(state, presets, plan),
        0 <= i < plan.files@.len(),
        plan.files@[i].name@ == "debug.json"@,
        has_config(state, config),
    ensures
        ({
            let doc = if presets.len() > 0 {
                JsonView::Array(all_scenarios(presets))
            } else {
                JsonView::Array(seq![plain_scenario(config)])
            };
            &&& json_parsed(plan.files@[i].contents@) == Some(doc)
            &&& plan.files@[i].contents@ == json_pretty(doc)
        }),
{
    crate::generate::law_written_files_are_read_back(state, presets, plan, i);
    lemma_text_of(state, presets, plan, i);
}

/// The chip of the first target whose chip is known, if there is one.
pub proof fn law_first_known_chip(presets: Seq<PresetView>, k: int)
    ensures
        0 <= k < presets.len() && presets[k].chip is Some && (forall|j: int|
            0 <= j < k ==> (#[trigger] presets[j]).chip is None) ==> first_chip(presets)
            == presets[k].chip,
        (forall|j: int| 0 <= j < presets.len() ==> (#[trigger] presets[j]).chip is None)
            ==> first_chip(presets) is None,
    decreases presets.len(),
{
    if presets.len() > 0 {
        let rest = presets.skip(1);
        law_first_known_chip(rest, k - 1);
        if presets[0].chip is None {
            assert(forall|j: int| 0 <= j < rest.len() ==> #[trigger] rest[j] == presets[j + 1]);
        }
    }
}

/// `embedded.json` names the backend, the chip of the first target whose chip is known
/// and the build directory of the first target, each with its default, and has
/// downloads done by themselves.
pub proof fn law_written_configuration(
    state: ProjectState,
    presets: Seq<PresetView>,
    plan: Plan,
    i: int,
)
    requires
        is_plan_for(state, presets, plan),
        0 <= i < plan.files@.len(),
        plan.files@[i].name@ == "embedded.json"@,
    ensures
        json_parsed(plan.files@[i].contents@) matches Some(doc) && {
            &&& plan.files@[i].contents@ == json_pretty(doc)
            &&& doc matches JsonView::Object(fields) && fields.len() == 5
            &&& doc.get("_readme"@) == Some(
                JsonView::Text("由 Zed 嵌入式支持自动生成；chip 可用 `probe-rs chip list` 查询。"@),
            )
            &&& doc.get("backend"@) == Some(JsonView::Text("probe-rs"@))
            &&& doc.get("chip"@) == Some(
                JsonView::Text(
                    match first_chip(presets) {
                        Some(chip) => chip,
                        None => "STM32F103C8"@,
                    },
                ),
            )
            &&& doc.get("buildDir"@) == Some(
                JsonView::Text(
                    if presets.len() > 0 {
                        presets[0].build_dir_rel
                    } else {
                        "build"@
                    },
                ),
            )
            &&& doc.get("autoDownload"@) == Some(JsonView::Bool(true))
        },
{
    crate::generate::law_written_files_are_read_back(state, presets, plan, i);
    lemma_text_of(state, presets, plan, i);
    lemma_embedded_names(presets);
    let fields = embedded_document(presets)->Object_0;
    lemma_field_at(fields, 0);
    lemma_field_at(fields, 1);
    lemma_field_at(fields, 2);
    lemma_field_at(fields, 3);
    lemma_field_at(fields, 4);
}

/// The configuration is the document in the text of `.zed/embedded.json`, and the
/// probe speed is what it sets.
pub proof fn law_configuration_and_speed(
    text: String,
    config: Option<JsonView>,
    speed: Option<u64>,
)
    requires
        sets_speed(config, speed),
    ensures
        config_in(Some(text)) == json_parsed(text@),
        config_in(None) is None,
        probe_speed(config) == speed,
{
}

/// The value of planned files is their names and contents.
pub proof fn law_values_of_planned_files(files: Seq<PlannedFile>, i: int)
    requires
        0 <= i < files.len(),
    ensures
        files_view(files).len() == files.len(),
        files_view(files)[i] == (files[i].name@, files[i].contents@),
{
}

} // verus!
