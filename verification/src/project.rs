//! What is found in a project directory.

use crate::text::{
    before, chars_of, contains, find_class, lines, lines_of, occurs, part, stands_at, starts_with,
    string_of, texts, trim, trim_chars, trim_front, trim_front_chars, trim_prefixes,
    trim_prefixes_chars, CharClass,
};
use vstd::prelude::*;

verus! {

/// The files by which a project is recognised.
#[derive(Debug, PartialEq, Eq)]
pub struct ProjectFiles {
    /// Whether `.zed/embedded.json` is a file.
    pub embedded_json: bool,
    /// Whether `.zed/debug.json` is a file.
    pub debug_json: bool,
    /// Whether `CMakePresets.json` is a file.
    pub cmake_presets: bool,
    /// Whether `MCU.cmake` is a file.
    pub mcu_cmake: bool,
    /// The text of `CMakeLists.txt`, if it can be read.
    pub cmake_lists: Option<String>,
}

/// Whether a text speaks of the cross compiler.
pub open spec fn names_cross_compiler(text: Option<String>) -> bool {
    text matches Some(t) && occurs(t@, "arm-none-eabi"@)
}

/// Whether the files are those of an embedded project: one that has been set up
/// as such, or one with CMake presets that either describes its MCU or is built
/// by the cross compiler.
pub open spec fn embedded(files: ProjectFiles) -> bool {
    ||| files.embedded_json
    ||| files.debug_json
    ||| files.cmake_presets && (files.mcu_cmake || names_cross_compiler(files.cmake_lists))
}

/// Whether the project is an embedded one (cross-compiled for STM32 or another
/// Cortex-M).
pub fn is_embedded_project(files: &ProjectFiles) -> (yes: bool)
    ensures
        yes == embedded(*files),
{
    if files.embedded_json || files.debug_json {
        return true;
    }
    if files.cmake_presets {
        if files.mcu_cmake {
            return true;
        }
        if let Some(list) = &files.cmake_lists {
            if contains(list.as_str(), "arm-none-eabi") {
                return true;
            }
        }
    }
    false
}

/// A line of CMake code without the comment that ends it.
pub open spec fn code(line: Seq<char>) -> Seq<char> {
    before(line, CharClass::NumberSign)
}

/// Whether a line calls `project`.
pub open spec fn calls_project(line: Seq<char>) -> bool {
    starts_with(trim_front(code(line), CharClass::White), "project("@)
}

/// The code of the first line that calls `project`.
pub open spec fn project_call(list: Seq<Seq<char>>) -> Option<Seq<char>>
    decreases list.len(),
{
    if list.len() == 0 {
        None
    } else if calls_project(list[0]) {
        Some(code(list[0]))
    } else {
        project_call(list.skip(1))
    }
}

/// The first argument of a call of `project`, without quotation marks.
pub open spec fn project_argument(call: Seq<char>) -> Seq<char> {
    let arguments = trim_prefixes(trim_front(call, CharClass::White), "project("@);
    trim(before(arguments, CharClass::ArgumentEnd), CharClass::Quote)
}

/// The project name that `CMakeLists.txt` gives: the first argument of the first
/// call of `project` that starts a line, unless it is empty.
pub open spec fn project_named(text: Seq<char>) -> Option<Seq<char>> {
    match project_call(lines(text)) {
        Some(call) => if project_argument(call).len() > 0 {
            Some(project_argument(call))
        } else {
            None
        },
        None => None,
    }
}

/// The project name that the text of `CMakeLists.txt` gives, if there is one.
pub open spec fn project_title(cmake_lists: Option<String>) -> Option<Seq<char>> {
    match cmake_lists {
        Some(text) => project_named(text@),
        None => None,
    }
}

/// The part of `s` before its first character of the kind.
fn chars_before(s: &Vec<char>, class: CharClass) -> (head: Vec<char>)
    ensures
        head@ == before(s@, class),
{
    assert(s@.skip(0) =~= s@);
    let end = find_class(s, 0, class);
    assert(s@.subrange(0, end as int) =~= s@.take(end as int));
    part(s, 0, end)
}

/// The first argument of a call of `project`, without quotation marks.
fn argument_of(call: &Vec<char>) -> (name: Vec<char>)
    ensures
        name@ == project_argument(call@),
{
    let keyword = chars_of("project(");
    let arguments = trim_prefixes_chars(&trim_front_chars(call, CharClass::White), &keyword);
    trim_chars(&chars_before(&arguments, CharClass::ArgumentEnd), CharClass::Quote)
}

/// The project name that the text of `CMakeLists.txt` gives, if there is one.
pub fn project_name(cmake_lists: &Option<String>) -> (name: Option<String>)
    ensures
        match name {
            Some(n) => project_title(*cmake_lists) == Some(n@),
            None => project_title(*cmake_lists) is None,
        },
{
    let text = match cmake_lists {
        Some(text) => text,
        None => {
            return None;
        },
    };
    let list = lines_of(&chars_of(text.as_str()));
    let keyword = chars_of("project(");
    let ghost all = texts(list@);
    assert(all.skip(0) =~= all);
    for i in 0..list.len()
        invariant
            keyword@ == "project("@,
            all == texts(list@),
            all == lines(text@),
            project_call(all) == project_call(all.skip(i as int)),
            *cmake_lists == Some(*text),
    {
        assert(all.skip(i as int)[0] == list@[i as int]@);
        assert(all.skip(i as int).skip(1) =~= all.skip(i + 1));
        let call = chars_before(&list[i], CharClass::NumberSign);
        if stands_at(&trim_front_chars(&call, CharClass::White), &keyword, 0) {
            let name = argument_of(&call);
            return if name.len() > 0 {
                Some(string_of(&name))
            } else {
                None
            };
        }
    }
    None
}

} // verus!
