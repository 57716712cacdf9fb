//! What the scenarios of `.zed/debug.json` start.

use crate::debug::{all_scenarios, lemma_scenario_names, plain_scenario, scenario};
use crate::json::JsonView;
use crate::laws::tasks::is_set_to;
use crate::laws::{lemma_field_at, lemma_no_field};
use crate::presets::PresetView;
use vstd::prelude::*;

verus! {

/// Whether a scenario has the program built by the task `build` and then launches it
/// on `chip` with the embedded adapter, does not stop at the entry, and says nothing
/// else.
pub open spec fn launches(
    one: JsonView,
    label: Seq<char>,
    program: Seq<char>,
    build: Seq<char>,
    chip: Option<Seq<char>>,
) -> bool {
    &&& one matches JsonView::Object(fields) && fields.len() == (if chip is Some {
        7int
    } else {
        6int
    })
    &&& one.get("label"@) == Some(JsonView::Text(label))
    &&& one.get("adapter"@) == Some(JsonView::Text("yz61-embedded"@))
    &&& one.get("request"@) == Some(JsonView::Text("launch"@))
    &&& one.get("program"@) == Some(JsonView::Text(program))
    &&& one.get("stop_on_entry"@) == Some(JsonView::Bool(false))
    &&& one.get("build"@) == Some(JsonView::Text(build))
    &&& match chip {
        Some(name) => one.get("chip"@) == Some(JsonView::Text(name)),
        None => one.get("chip"@) is None,
    }
}

proof fn lemma_scenario_launches(
    label: Seq<char>,
    program: Seq<char>,
    build: Seq<char>,
    chip: Option<Seq<char>>,
)
    ensures
        launches(scenario(label, program, build, chip), label, program, build, chip),
{
    lemma_scenario_names(label, program, build, chip);
    let fields = scenario(label, program, build, chip)->Object_0;
    lemma_field_at(fields, 0);
    lemma_field_at(fields, 1);
    lemma_field_at(fields, 2);
    lemma_field_at(fields, 3);
    lemma_field_at(fields, 4);
    lemma_field_at(fields, 5);
    if chip is Some {
        lemma_field_at(fields, 6);
    } else {
        reveal_strlit("label");
        reveal_strlit("adapter");
        reveal_strlit("request");
        reveal_strlit("program");
        reveal_strlit("stop_on_entry");
        reveal_strlit("build");
        reveal_strlit("chip");
        assert("chip"@.len() == 4);
        lemma_no_field(fields, "chip"@);
    }
}

/// There is one scenario for each target, in their order. It has the target built by
/// its own build task and launches its own program on its own chip, after which it is
/// called; without a known chip it is called after the target.
pub proof fn law_scenario_of_each_target(presets: Seq<PresetView>, i: int)
    requires
        0 <= i < presets.len(),
    ensures
        all_scenarios(presets).len() == presets.len(),
        launches(
            all_scenarios(presets)[i],
            presets[i].name + ": debug "@ + (match presets[i].chip {
                Some(chip) => chip,
                None => presets[i].name,
            }),
            presets[i].elf_rel,
            presets[i].name + ": build"@,
            presets[i].chip,
        ),
{
    let target = presets[i];
    let subject = match target.chip {
        Some(chip) => chip,
        None => target.name,
    };
    lemma_scenario_launches(
        target.name + ": debug "@ + subject,
        target.elf_rel,
        target.name + ": build"@,
        target.chip,
    );
}

/// The scenario of a target does not depend on the other targets.
pub proof fn law_scenarios_are_independent(a: Seq<PresetView>, b: Seq<PresetView>)
    ensures
        all_scenarios(a + b) == all_scenarios(a) + all_scenarios(b),
{
    assert(all_scenarios(a + b) =~= all_scenarios(a) + all_scenarios(b));
}

/// The scenario of a project without presets launches the program in the build
/// directory of the configuration, on the chip that the configuration names, if it
/// names one.
pub proof fn law_plain_scenario_launches_configured_program(
    config: Option<JsonView>,
    dir: Seq<char>,
    target: Seq<char>,
    chip: Seq<char>,
)
    requires
        is_set_to(config, "buildDir"@, "build"@, dir),
        is_set_to(config, "target"@, "fw"@, target),
    ensures
        (config matches Some(doc) && doc.get("chip"@) == Some(JsonView::Text(chip))) ==> launches(
            plain_scenario(config),
            "stm32: debug "@ + chip,
            dir + "/"@ + target + ".elf"@,
            "stm32: build"@,
            Some(chip),
        ),
        !(config matches Some(doc) && doc.get("chip"@) matches Some(found) && found is Text)
            ==> launches(
            plain_scenario(config),
            "stm32: debug "@ + "STM32"@,
            dir + "/"@ + target + ".elf"@,
            "stm32: build"@,
            None,
        ),
{
    let elf = dir + "/"@ + target + ".elf"@;
    lemma_scenario_launches("stm32: debug "@ + chip, elf, "stm32: build"@, Some(chip));
    lemma_scenario_launches("stm32: debug "@ + "STM32"@, elf, "stm32: build"@, None);
}

} // verus!
