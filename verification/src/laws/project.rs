//! How a project is recognised, and what it is called.

use crate::laws::text::{
    all_of, has_part, law_before, law_occurring_is_being_a_part, law_trimming,
    law_trimming_prefixes, lemma_before_is, lemma_trim_front_is, lemma_trim_is,
};
use crate::project::{
    calls_project, code, embedded, project_argument, project_call, project_named, project_title,
    ProjectFiles,
};
use crate::text::{before, lines, starts_with, trim, trim_front, white_space, CharClass};
use vstd::prelude::*;

verus! {

/// Whether a text holds the name of the cross compiler.
pub open spec fn says_cross_compiler(text: Option<String>) -> bool {
    text matches Some(t) && has_part(t@, "arm-none-eabi"@)
}

/// A project is an embedded one for each of these reasons alone, whatever else it
/// holds: it has been set up as one, it has presets and an `MCU.cmake`, or it has
/// presets and names the cross compiler.
pub proof fn law_each_reason_is_enough(files: ProjectFiles)
    ensures
        files.embedded_json ==> embedded(files),
        files.debug_json ==> embedded(files),
        files.cmake_presets && files.mcu_cmake ==> embedded(files),
        files.cmake_presets && says_cross_compiler(files.cmake_lists) ==> embedded(files),
{
    if let Some(text) = files.cmake_lists {
        law_occurring_is_being_a_part(text@, "arm-none-eabi"@);
    }
}

/// Without any of the reasons a project is not an embedded one: presets alone do not
/// make it one, nor do an `MCU.cmake` or the cross compiler without presets.
pub proof fn law_no_other_reason_counts(files: ProjectFiles)
    requires
        !files.embedded_json,
        !files.debug_json,
    ensures
        !files.cmake_presets ==> !embedded(files),
        !files.mcu_cmake && !says_cross_compiler(files.cmake_lists) ==> !embedded(files),
{
    if let Some(text) = files.cmake_lists {
        law_occurring_is_being_a_part(text@, "arm-none-eabi"@);
    }
}

/// A project that is an embedded one stays one when files are added to it.
pub proof fn law_recognition_is_monotone(fewer: ProjectFiles, more: ProjectFiles)
    requires
        embedded(fewer),
        fewer.embedded_json ==> more.embedded_json,
        fewer.debug_json ==> more.debug_json,
        fewer.cmake_presets ==> more.cmake_presets,
        fewer.mcu_cmake ==> more.mcu_cmake,
        says_cross_compiler(fewer.cmake_lists) ==> says_cross_compiler(more.cmake_lists),
    ensures
        embedded(more),
{
    law_each_reason_is_enough(more);
    if !fewer.embedded_json && !fewer.debug_json {
        law_no_other_reason_counts(fewer);
    }
}

/// Whether every `project(` in a line stands in a comment or after other code, so
/// that the line does not call it first of all.
pub open spec fn no_call(line: Seq<char>) -> bool {
    forall|at: int|
        #![trigger line.subrange(at, at + "project("@.len())]
        0 <= at && at + "project("@.len() <= line.len() && line.subrange(
            at,
            at + "project("@.len(),
        ) == "project("@ ==> exists|i: int|
            0 <= i < at && (#[trigger] line[i] == '#' || !white_space(line[i]))
}

/// Whether a line is a call of `project` with the first argument `name`: after white
/// space alone, ended by a parenthesis, white space, a comment or the end of the
/// line, and perhaps between quotation marks.
pub open spec fn calls_with(
    line: Seq<char>,
    lead: Seq<char>,
    open: Seq<char>,
    name: Seq<char>,
    close: Seq<char>,
    more: Seq<char>,
) -> bool {
    &&& line == lead + "project("@ + open + name + close + more
    &&& all_of(lead, CharClass::White)
    &&& all_of(open, CharClass::Quote)
    &&& all_of(close, CharClass::Quote)
    &&& name.len() > 0
    &&& forall|i: int|
        0 <= i < name.len() ==> {
            &&& !white_space(#[trigger] name[i])
            &&& name[i] != ')'
            &&& name[i] != '#'
        }
    &&& name[0] != '"' && name[0] != '\''
    &&& name.last() != '"' && name.last() != '\''
    &&& more.len() > 0 ==> more[0] == ')' || more[0] == '#' || white_space(more[0])
    &&& !"project("@.is_prefix_of(open + name + close + more)
}

proof fn lemma_no_call(line: Seq<char>)
    requires
        no_call(line),
    ensures
        !calls_project(line),
{
    reveal_strlit("project(");
    let keyword = "project("@;
    let text = code(line);
    law_before(line, CharClass::NumberSign);
    law_trimming(text, CharClass::White);
    if calls_project(line) {
        let rest = trim_front(text, CharClass::White);
        let a = choose|a: Seq<char>|
            text == #[trigger] (a + trim_front(text, CharClass::White)) && all_of(
                a,
                CharClass::White,
            );
        let at = a.len() as int;
        assert(rest.subrange(0, keyword.len() as int) == keyword);
        assert(line.subrange(at, at + keyword.len()) =~= keyword) by {
            assert forall|i: int| 0 <= i < keyword.len() implies line[at + i] == keyword[i] by {
                assert(text[at + i] == rest[i]);
                assert(rest.subrange(0, keyword.len() as int)[i] == rest[i]);
                assert(line.subrange(0, text.len() as int)[at + i] == line[at + i]);
            }
        }
        let i = choose|i: int| 0 <= i < at && (#[trigger] line[i] == '#' || !white_space(line[i]));
        assert(text[i] == a[i]);
        assert(line.subrange(0, text.len() as int)[i] == line[i]);
        assert(CharClass::White.has(a[i]));
        assert(!CharClass::NumberSign.has(text[i]));
    }
}

proof fn lemma_calls_with(
    line: Seq<char>,
    lead: Seq<char>,
    open: Seq<char>,
    name: Seq<char>,
    close: Seq<char>,
    more: Seq<char>,
)
    requires
        calls_with(line, lead, open, name, close, more),
    ensures
        calls_project(line),
        project_argument(code(line)) == name,
{
    reveal_strlit("project(");
    let keyword = "project("@;
    let argument = open + name + close;
    let n = before(more, CharClass::NumberSign).len() as int;
    law_before(more, CharClass::NumberSign);
    let kept = more.take(n);
    let dropped = more.skip(n);
    let front = lead + keyword + argument + kept;
    assert(line =~= front + dropped);
    assert forall|i: int| 0 <= i < front.len() implies !CharClass::NumberSign.has(
        #[trigger] front[i],
    ) by {
        let l = lead.len() as int;
        let k = l + keyword.len();
        let o = k + open.len();
        let m = o + name.len();
        let c = m + close.len();
        if i < l {
            assert(CharClass::White.has(lead[i]));
            assert(front[i] == lead[i]);
        } else if i < k {
            assert(front[i] == keyword[i - l]);
        } else if i < o {
            assert(CharClass::Quote.has(open[i - k]));
            assert(front[i] == open[i - k]);
        } else if i < m {
            assert(front[i] == name[i - o]);
        } else if i < c {
            assert(CharClass::Quote.has(close[i - m]));
            assert(front[i] == close[i - m]);
        } else {
            assert(front[i] == more[i - c]);
            assert(before(more, CharClass::NumberSign)[i - c] == more[i - c]);
        }
    }
    lemma_before_is(front, dropped, CharClass::NumberSign);
    assert(code(line) == front);
    let call = keyword + (argument + kept);
    assert(front =~= lead + call);
    assert(call[0] == keyword[0]);
    lemma_trim_front_is(lead, call, CharClass::White);
    assert(call.subrange(0, keyword.len() as int) =~= keyword);
    assert(starts_with(call, keyword));
    let arguments = argument + kept;
    law_trimming_prefixes(arguments, keyword);
    if keyword.is_prefix_of(arguments) {
        assert(keyword.is_prefix_of(argument + more)) by {
            assert((argument + more).subrange(0, keyword.len() as int) =~= arguments.subrange(
                0,
                keyword.len() as int,
            ));
        }
        assert(open + name + close + more =~= argument + more);
    }
    assert forall|i: int| 0 <= i < argument.len() implies !CharClass::ArgumentEnd.has(
        #[trigger] argument[i],
    ) by {
        let o = open.len() as int;
        let m = o + name.len();
        if i < o {
            assert(CharClass::Quote.has(open[i]));
            assert(argument[i] == open[i]);
        } else if i < m {
            assert(argument[i] == name[i - o]);
        } else {
            assert(CharClass::Quote.has(close[i - m]));
            assert(argument[i] == close[i - m]);
        }
    }
    if kept.len() > 0 {
        assert(kept[0] == more[0]);
        assert(before(more, CharClass::NumberSign)[0] == more[0]);
    }
    lemma_before_is(argument, kept, CharClass::ArgumentEnd);
    lemma_trim_is(open, name, close, CharClass::Quote);
}

proof fn lemma_call_at(list: Seq<Seq<char>>, k: int)
    requires
        0 <= k < list.len(),
        calls_project(list[k]),
        forall|j: int| 0 <= j < k ==> !calls_project(#[trigger] list[j]),
    ensures
        project_call(list) == Some(code(list[k])),
    decreases k,
{
    if k > 0 {
        assert(!calls_project(list[0]));
        let rest = list.skip(1);
        assert(rest[k - 1] == list[k]);
        assert forall|j: int| 0 <= j < k - 1 implies !calls_project(#[trigger] rest[j]) by {
            assert(rest[j] == list[j + 1]);
        }
        lemma_call_at(rest, k - 1);
    }
}

proof fn lemma_no_call_at_all(list: Seq<Seq<char>>)
    requires
        forall|j: int| 0 <= j < list.len() ==> !calls_project(#[trigger] list[j]),
    ensures
        project_call(list) is None,
    decreases list.len(),
{
    if list.len() > 0 {
        assert(!calls_project(list[0]));
        let rest = list.skip(1);
        assert forall|j: int| 0 <= j < rest.len() implies !calls_project(#[trigger] rest[j]) by {
            assert(rest[j] == list[j + 1]);
        }
        lemma_no_call_at_all(rest);
    }
}

/// The project is called as the first argument of the first line that calls
/// `project`, without quotation marks; comments and other code do not count.
pub proof fn law_project_is_named_by_its_first_call(
    text: String,
    k: int,
    lead: Seq<char>,
    open: Seq<char>,
    name: Seq<char>,
    close: Seq<char>,
    more: Seq<char>,
)
    requires
        0 <= k < lines(text@).len(),
        calls_with(lines(text@)[k], lead, open, name, close, more),
        forall|j: int| 0 <= j < k ==> no_call(#[trigger] lines(text@)[j]),
    ensures
        project_named(text@) == Some(name),
        project_title(Some(text)) == Some(name),
{
    let list = lines(text@);
    lemma_calls_with(list[k], lead, open, name, close, more);
    assert forall|j: int| 0 <= j < k implies !calls_project(#[trigger] list[j]) by {
        lemma_no_call(list[j]);
    }
    lemma_call_at(list, k);
}

/// Without a call of `project` the project has no name, and neither has it without
/// `CMakeLists.txt`.
pub proof fn law_project_without_call_has_no_name(text: String)
    requires
        forall|j: int| 0 <= j < lines(text@).len() ==> no_call(#[trigger] lines(text@)[j]),
    ensures
        project_title(Some(text)) is None,
        project_title(None) is None,
{
    let list = lines(text@);
    assert forall|j: int| 0 <= j < list.len() implies !calls_project(#[trigger] list[j]) by {
        lemma_no_call(list[j]);
    }
    lemma_no_call_at_all(list);
}

/// Where the first call of `project` has no argument, or one of quotation marks alone,
/// the project has no name.
pub proof fn law_empty_argument_is_no_name(
    text: String,
    k: int,
    lead: Seq<char>,
    quotes: Seq<char>,
    more: Seq<char>,
)
    requires
        0 <= k < lines(text@).len(),
        lines(text@)[k] == lead + "project("@ + quotes + more,
        all_of(lead, CharClass::White),
        all_of(quotes, CharClass::Quote),
        more.len() > 0 ==> more[0] == ')' || more[0] == '#' || white_space(more[0]),
        forall|j: int| 0 <= j < k ==> no_call(#[trigger] lines(text@)[j]),
    ensures
        project_title(Some(text)) is None,
{
    reveal_strlit("project(");
    let keyword = "project("@;
    let list = lines(text@);
    let line = list[k];
    law_before(more, CharClass::NumberSign);
    let n = before(more, CharClass::NumberSign).len() as int;
    let kept = more.take(n);
    let dropped = more.skip(n);
    let front = lead + keyword + quotes + kept;
    assert(line =~= front + dropped);
    assert forall|i: int| 0 <= i < front.len() implies !CharClass::NumberSign.has(
        #[trigger] front[i],
    ) by {
        let l = lead.len() as int;
        let m = l + keyword.len();
        let c = m + quotes.len();
        if i < l {
            assert(CharClass::White.has(lead[i]));
            assert(front[i] == lead[i]);
        } else if i < m {
            assert(front[i] == keyword[i - l]);
        } else if i < c {
            assert(CharClass::Quote.has(quotes[i - m]));
            assert(front[i] == quotes[i - m]);
        } else {
            assert(front[i] == more[i - c]);
            assert(before(more, CharClass::NumberSign)[i - c] == more[i - c]);
        }
    }
    lemma_before_is(front, dropped, CharClass::NumberSign);
    let arguments = quotes + kept;
    let call = keyword + arguments;
    assert(front =~= lead + call);
    assert(call[0] == keyword[0]);
    lemma_trim_front_is(lead, call, CharClass::White);
    assert(call.subrange(0, keyword.len() as int) =~= keyword);
    assert(starts_with(call, keyword));
    law_trimming_prefixes(arguments, keyword);
    if keyword.is_prefix_of(arguments) {
        assert(arguments.subrange(0, keyword.len() as int)[0] == arguments[0]);
        if quotes.len() > 0 {
            assert(CharClass::Quote.has(quotes[0]));
            assert(arguments[0] == quotes[0]);
        } else {
            assert(arguments[0] == more[0]);
        }
    }
    assert forall|i: int| 0 <= i < quotes.len() implies !CharClass::ArgumentEnd.has(
        #[trigger] quotes[i],
    ) by {
        assert(CharClass::Quote.has(quotes[i]));
    }
    if kept.len() > 0 {
        assert(kept[0] == more[0]);
        assert(before(more, CharClass::NumberSign)[0] == more[0]);
    }
    lemma_before_is(quotes, kept, CharClass::ArgumentEnd);
    law_trimming(quotes, CharClass::Quote);
    let name = trim(quotes, CharClass::Quote);
    if name.len() > 0 {
        let (a, b) = choose|a: Seq<char>, b: Seq<char>|
            quotes == #[trigger] (a + trim(quotes, CharClass::Quote) + b) && all_of(
                a,
                CharClass::Quote,
            ) && all_of(b, CharClass::Quote);
        assert(quotes[a.len() as int] == name[0]);
        assert(CharClass::Quote.has(quotes[a.len() as int]));
    }
    assert(project_argument(code(line)).len() == 0);
    assert forall|j: int| 0 <= j < k implies !calls_project(#[trigger] list[j]) by {
        lemma_no_call(list[j]);
    }
    lemma_call_at(list, k);
}

} // verus!
