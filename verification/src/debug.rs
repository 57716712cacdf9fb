//! The scenarios of `.zed/debug.json`.

use crate::json::{Fields, Items, Json, JsonView};
use crate::json_text::distinct_names;
use crate::presets::{presets_view, Preset, PresetView};
use crate::tasks::{config_view, default_elf, setting_or};
use crate::text::{concat2, concat3};
use vstd::prelude::*;

verus! {

/// The debug adapter of the embedded extension.
pub const EMBEDDED_ADAPTER: &'static str = "yz61-embedded";

/// A scenario: the program is built by the task `build`, then launched on the
/// chip, if that is known.
pub open spec fn scenario(
    label: Seq<char>,
    program: Seq<char>,
    build: Seq<char>,
    chip: Option<Seq<char>>,
) -> JsonView {
    let fields = seq![
        ("label"@, JsonView::Text(label)),
        ("adapter"@, JsonView::Text(EMBEDDED_ADAPTER@)),
        ("request"@, JsonView::Text("launch"@)),
        ("program"@, JsonView::Text(program)),
        ("stop_on_entry"@, JsonView::Bool(false)),
        ("build"@, JsonView::Text(build)),
    ];
    match chip {
        Some(name) => JsonView::Object(fields.push(("chip"@, JsonView::Text(name)))),
        None => JsonView::Object(fields),
    }
}

/// The fields of a scenario have different names.
pub proof fn lemma_scenario_names(
    label: Seq<char>,
    program: Seq<char>,
    build: Seq<char>,
    chip: Option<Seq<char>>,
)
    ensures
        distinct_names(scenario(label, program, build, chip)->Object_0),
{
    reveal_strlit("label");
    reveal_strlit("adapter");
    reveal_strlit("request");
    reveal_strlit("program");
    reveal_strlit("stop_on_entry");
    reveal_strlit("build");
    reveal_strlit("chip");
    let fields = scenario(label, program, build, chip)->Object_0;
    assert(fields[0].0.len() == 5 && fields[0].0[0] == 'l');
    assert(fields[1].0.len() == 7 && fields[1].0[0] == 'a');
    assert(fields[2].0.len() == 7 && fields[2].0[0] == 'r');
    assert(fields[3].0.len() == 7 && fields[3].0[0] == 'p');
    assert(fields[4].0.len() == 13);
    assert(fields[5].0.len() == 5 && fields[5].0[0] == 'b');
    if chip is Some {
        assert(fields[6].0.len() == 4);
    }
}

/// The scenario of a target.
pub open spec fn target_scenario(preset: PresetView) -> JsonView {
    let subject = match preset.chip {
        Some(chip) => chip,
        None => preset.name,
    };
    scenario(
        preset.name + ": debug "@ + subject,
        preset.elf_rel,
        preset.name + ": build"@,
        preset.chip,
    )
}

/// The scenarios of all targets.
pub open spec fn all_scenarios(presets: Seq<PresetView>) -> Seq<JsonView> {
    presets.map_values(|preset: PresetView| target_scenario(preset))
}

/// The chip that the configuration names.
pub open spec fn configured_chip(config: Option<JsonView>) -> Option<Seq<char>> {
    match config {
        Some(doc) => doc.get_str("chip"@),
        None => None,
    }
}

/// The scenario of a project without presets.
pub open spec fn plain_scenario(config: Option<JsonView>) -> JsonView {
    let subject = match configured_chip(config) {
        Some(chip) => chip,
        None => "STM32"@,
    };
    scenario(
        "stm32: debug "@ + subject,
        default_elf(config),
        "stm32: build"@,
        configured_chip(config),
    )
}

/// A scenario.
fn make_scenario(label: &str, program: &str, build: &str, chip: Option<&str>) -> (json: Json)
    ensures
        json@ == scenario(
            label@,
            program@,
            build@,
            match chip {
                Some(name) => Some(name@),
                None => None,
            },
        ),
{
    let fields = Fields::new().with_text("label", label).with_text(
        "adapter",
        EMBEDDED_ADAPTER,
    ).with_text("request", "launch").with_text("program", program).with(
        "stop_on_entry",
        Json::Bool(false),
    ).with_text("build", build);
    assert(fields@ =~= scenario(label@, program@, build@, None)->Object_0);
    match chip {
        Some(name) => fields.with_text("chip", name).object(),
        None => fields.object(),
    }
}

/// The scenarios of a project with presets, one for each target.
pub fn preset_debug(presets: &Vec<Preset>) -> (scenarios: Json)
    ensures
        scenarios@ == JsonView::Array(all_scenarios(presets_view(presets@))),
{
    let mut items = Items::new();
    let ghost all = all_scenarios(presets_view(presets@));
    for i in 0..presets.len()
        invariant
            all == all_scenarios(presets_view(presets@)),
            items@ == all.take(i as int),
    {
        let preset = &presets[i];
        let name = preset.name.as_str();
        let chip: Option<&str> = match &preset.chip {
            Some(chip) => Some(chip.as_str()),
            None => None,
        };
        let subject = match chip {
            Some(chip) => chip,
            None => name,
        };
        let label = concat3(name, ": debug ", subject);
        let build = concat2(name, ": build");
        items = items.with(
            make_scenario(label.as_str(), preset.elf_rel.as_str(), build.as_str(), chip),
        );
        assert(items@ =~= all.take(i + 1));
    }
    assert(all.take(all.len() as int) =~= all);
    items.array()
}

/// The scenario of a project without presets, by its configuration.
pub fn default_debug(config: &Option<Json>) -> (scenarios: Json)
    ensures
        scenarios@ == JsonView::Array(seq![plain_scenario(config_view(*config))]),
{
    let ghost view = config_view(*config);
    let build_dir = setting_or(config, "buildDir", "build");
    let target = setting_or(config, "target", "fw");
    let chip: Option<&str> = match config {
        Some(doc) => doc.get_str("chip"),
        None => None,
    };
    let subject = match chip {
        Some(chip) => chip,
        None => "STM32",
    };
    let label = concat2("stm32: debug ", subject);
    let mut program = concat3(build_dir.as_str(), "/", target.as_str());
    program.append(".elf");
    let one = make_scenario(label.as_str(), program.as_str(), "stm32: build", chip);
    let items = Items::new().with(one);
    assert(items@ =~= seq![plain_scenario(view)]);
    items.array()
}

} // verus!
