//! What the functions on texts compute.

use crate::presets::optional_text;
use crate::text::{
    ascii_alphanumeric, ascii_digit, ascii_lower, ascii_upper, before, drop_return, ends_with, joined, lemma_replace_absent, lines, lower_text, occurs, occurs_at, position, replace_all, starts_with,
    strings, texts, trim, trim_back, trim_front, trim_prefixes, upper_text, white_space, CharClass,
};
use vstd::prelude::*;

verus! {

/// Whether `s` is something, `pattern` and something more.
pub open spec fn has_part(s: Seq<char>, pattern: Seq<char>) -> bool {
    exists|a: Seq<char>, b: Seq<char>| s == #[trigger] (a + pattern + b)
}

/// A pattern occurs in a text if and only if the text is something, the pattern and
/// something more.
pub proof fn law_occurring_is_being_a_part(s: Seq<char>, pattern: Seq<char>)
    ensures
        occurs(s, pattern) <==> has_part(s, pattern),
        starts_with(s, pattern) <==> pattern.is_prefix_of(s),
        ends_with(s, pattern) <==> pattern.is_suffix_of(s),
{
    if occurs(s, pattern) {
        let at = choose|at: int| occurs_at(s, pattern, at);
        let a = s.take(at);
        let b = s.skip(at + pattern.len());
        assert(a + pattern + b =~= s) by {
            assert forall|i: int| 0 <= i < s.len() implies (a + pattern + b)[i] == s[i] by {
                if at <= i < at + pattern.len() {
                    assert(s.subrange(at, at + pattern.len())[i - at] == s[i]);
                }
            }
        }
    }
    if has_part(s, pattern) {
        let (a, b) = choose|a: Seq<char>, b: Seq<char>| s == #[trigger] (a + pattern + b);
        let at = a.len() as int;
        assert(s.subrange(at, at + pattern.len()) =~= pattern);
        assert(occurs_at(s, pattern, at));
    }
}

/// White space is what Unicode calls so.
pub proof fn law_white_space(c: char)
    ensures
        white_space(c) <==> seq![
            '\u{9}',
            '\u{a}',
            '\u{b}',
            '\u{c}',
            '\u{d}',
            '\u{20}',
            '\u{85}',
            '\u{a0}',
            '\u{1680}',
            '\u{2000}',
            '\u{2001}',
            '\u{2002}',
            '\u{2003}',
            '\u{2004}',
            '\u{2005}',
            '\u{2006}',
            '\u{2007}',
            '\u{2008}',
            '\u{2009}',
            '\u{200a}',
            '\u{2028}',
            '\u{2029}',
            '\u{202f}',
            '\u{205f}',
            '\u{3000}',
        ].contains(c),
{
    let all = seq![
        '\u{9}',
        '\u{a}',
        '\u{b}',
        '\u{c}',
        '\u{d}',
        '\u{20}',
        '\u{85}',
        '\u{a0}',
        '\u{1680}',
        '\u{2000}',
        '\u{2001}',
        '\u{2002}',
        '\u{2003}',
        '\u{2004}',
        '\u{2005}',
        '\u{2006}',
        '\u{2007}',
        '\u{2008}',
        '\u{2009}',
        '\u{200a}',
        '\u{2028}',
        '\u{2029}',
        '\u{202f}',
        '\u{205f}',
        '\u{3000}',
    ];
    if white_space(c) {
        let n = c as u32;
        let k: int = if n <= 0xd {
            n - 9
        } else if n == 0x20 {
            5
        } else if n == 0x85 {
            6
        } else if n == 0xa0 {
            7
        } else if n == 0x1680 {
            8
        } else if n <= 0x200a {
            9 + (n - 0x2000)
        } else if n == 0x2028 {
            20
        } else if n == 0x2029 {
            21
        } else if n == 0x202f {
            22
        } else if n == 0x205f {
            23
        } else {
            24
        };
        assert(all[k] as u32 == n);
        assert(all[k] == c);
    }
}

/// Which characters are of which kind.
pub proof fn law_char_classes(c: char)
    ensures
        CharClass::White.has(c) == white_space(c),
        CharClass::Quote.has(c) == (c == '\u{22}' || c == '\u{27}'),
        CharClass::LineFeed.has(c) == (c == '\u{a}'),
        CharClass::NumberSign.has(c) == (c == '\u{23}'),
        CharClass::ArgumentEnd.has(c) == (c == '\u{29}' || white_space(c)),
{
}

/// Whether every character is of the kind.
pub open spec fn all_of(s: Seq<char>, class: CharClass) -> bool {
    forall|i: int| 0 <= i < s.len() ==> class.has(#[trigger] s[i])
}

proof fn lemma_trim_front(s: Seq<char>, class: CharClass) -> (cut: Seq<char>)
    ensures
        s == cut + trim_front(s, class),
        all_of(cut, class),
        trim_front(s, class).len() > 0 ==> !class.has(trim_front(s, class)[0]),
    decreases s.len(),
{
    if s.len() > 0 && class.has(s[0]) {
        let rest = lemma_trim_front(s.skip(1), class);
        let cut = seq![s[0]] + rest;
        assert(s =~= seq![s[0]] + s.skip(1));
        assert(s =~= cut + trim_front(s, class));
        assert forall|i: int| 0 <= i < cut.len() implies class.has(#[trigger] cut[i]) by {
            if i > 0 {
                assert(cut[i] == rest[i - 1]);
            }
        }
        cut
    } else {
        let cut = Seq::<char>::empty();
        assert(s =~= cut + s);
        cut
    }
}

proof fn lemma_trim_back(s: Seq<char>, class: CharClass) -> (cut: Seq<char>)
    ensures
        s == trim_back(s, class) + cut,
        all_of(cut, class),
        trim_back(s, class).len() > 0 ==> !class.has(trim_back(s, class).last()),
    decreases s.len(),
{
    if s.len() > 0 && class.has(s.last()) {
        let rest = lemma_trim_back(s.drop_last(), class);
        let cut = rest.push(s.last());
        assert(s =~= s.drop_last().push(s.last()));
        assert(s =~= trim_back(s, class) + cut);
        cut
    } else {
        let cut = Seq::<char>::empty();
        assert(s =~= s + cut);
        cut
    }
}

/// Trimming takes characters of the kind away at both ends, and leaves none there.
pub proof fn law_trimming(s: Seq<char>, class: CharClass)
    ensures
        exists|a: Seq<char>, b: Seq<char>|
            s == #[trigger] (a + trim(s, class) + b) && all_of(a, class) && all_of(b, class),
        trim(s, class).len() > 0 ==> !class.has(trim(s, class)[0]) && !class.has(
            trim(s, class).last(),
        ),
        exists|a: Seq<char>| s == #[trigger] (a + trim_front(s, class)) && all_of(a, class),
        trim_front(s, class).len() > 0 ==> !class.has(trim_front(s, class)[0]),
{
    let front = trim_front(s, class);
    let a = lemma_trim_front(s, class);
    let b = lemma_trim_back(front, class);
    assert(s =~= a + trim(s, class) + b);
    if trim(s, class).len() > 0 {
        assert(front[0] == trim(s, class)[0]);
    }
}

/// What stands before the first character of a kind has none of the kind, and is the
/// whole text or followed by one.
pub proof fn law_before(s: Seq<char>, class: CharClass)
    ensures
        before(s, class).is_prefix_of(s),
        forall|i: int| 0 <= i < before(s, class).len() ==> !class.has(#[trigger] before(s, class)[i]),
        before(s, class).len() < s.len() ==> class.has(s[before(s, class).len() as int]),
{
    lemma_position(s, class);
}

proof fn lemma_position(s: Seq<char>, class: CharClass)
    ensures
        position(s, class) <= s.len(),
        forall|i: int| 0 <= i < position(s, class) ==> !class.has(#[trigger] s[i]),
        position(s, class) < s.len() ==> class.has(s[position(s, class) as int]),
    decreases s.len(),
{
    if s.len() > 0 && !class.has(s[0]) {
        let rest = s.skip(1);
        lemma_position(rest, class);
        if position(rest, class) < rest.len() {
            assert(rest[position(rest, class) as int] == s[position(rest, class) as int + 1]);
        }
        assert forall|i: int| 0 <= i < position(s, class) implies !class.has(#[trigger] s[i]) by {
            if i > 0 {
                assert(rest[i - 1] == s[i]);
            }
        }
    }
}

/// Where a text is some characters that are not of a kind and then one that is, the
/// part before the kind is those characters.
pub proof fn lemma_before_is(a: Seq<char>, b: Seq<char>, class: CharClass)
    requires
        forall|i: int| 0 <= i < a.len() ==> !class.has(#[trigger] a[i]),
        b.len() > 0 ==> class.has(b[0]),
    ensures
        before(a + b, class) == a,
{
    let s = a + b;
    law_before(s, class);
    let found = before(s, class);
    if found.len() < a.len() {
        assert(s[found.len() as int] == a[found.len() as int]);
    }
    if found.len() > a.len() {
        assert(found[a.len() as int] == s[a.len() as int]);
        assert(s[a.len() as int] == b[0]);
    }
    assert(found =~= a);
}

/// A text that starts with some characters of a kind and goes on with another has
/// these trimmed in front.
pub proof fn lemma_trim_front_is(a: Seq<char>, b: Seq<char>, class: CharClass)
    requires
        all_of(a, class),
        b.len() > 0 ==> !class.has(b[0]),
    ensures
        trim_front(a + b, class) == b,
    decreases a.len(),
{
    if a.len() == 0 {
        assert(a + b =~= b);
    } else {
        assert((a + b)[0] == a[0]);
        assert((a + b).skip(1) =~= a.skip(1) + b);
        assert forall|i: int| 0 <= i < a.skip(1).len() implies class.has(
            #[trigger] a.skip(1)[i],
        ) by {
            assert(a.skip(1)[i] == a[i + 1]);
        }
        lemma_trim_front_is(a.skip(1), b, class);
    }
}

/// A text between characters of a kind is what trimming leaves.
pub proof fn lemma_trim_is(a: Seq<char>, s: Seq<char>, b: Seq<char>, class: CharClass)
    requires
        all_of(a, class),
        all_of(b, class),
        s.len() > 0,
        !class.has(s[0]),
        !class.has(s.last()),
    ensures
        trim(a + s + b, class) == s,
    decreases b.len(),
{
    assert(a + s + b =~= a + (s + b));
    lemma_trim_front_is(a, s + b, class);
    lemma_trim_back_is(s, b, class);
}

proof fn lemma_trim_back_is(s: Seq<char>, b: Seq<char>, class: CharClass)
    requires
        all_of(b, class),
        s.len() > 0,
        !class.has(s.last()),
    ensures
        trim_back(s + b, class) == s,
    decreases b.len(),
{
    if b.len() == 0 {
        assert(s + b =~= s);
    } else {
        assert((s + b).last() == b.last());
        assert(b.last() == b[b.len() - 1]);
        assert((s + b).drop_last() =~= s + b.drop_last());
        assert forall|i: int| 0 <= i < b.drop_last().len() implies class.has(
            #[trigger] b.drop_last()[i],
        ) by {
            assert(b.drop_last()[i] == b[i]);
        }
        lemma_trim_back_is(s, b.drop_last(), class);
    }
}

/// The small and the capital forms of ASCII letters are 32 apart, and no other
/// character is changed.
pub proof fn law_ascii_letters(c: char, s: Seq<char>, i: int)
    ensures
        65 <= c as u32 <= 90 ==> ascii_lower(c) as u32 == c as u32 + 32 && ascii_upper(c) == c,
        97 <= c as u32 <= 122 ==> ascii_upper(c) as u32 == c as u32 - 32 && ascii_lower(c) == c,
        !(65 <= c as u32 <= 90) && !(97 <= c as u32 <= 122) ==> ascii_lower(c) == c && ascii_upper(
            c,
        ) == c,
        lower_text(s).len() == s.len(),
        upper_text(s).len() == s.len(),
        0 <= i < s.len() ==> lower_text(s)[i] == ascii_lower(s[i]) && upper_text(s)[i]
            == ascii_upper(s[i]),
{
}

/// Texts are joined one after the other, with the separator between any two.
pub proof fn law_joining(parts: Seq<Seq<char>>, part: Seq<char>, separator: Seq<char>)
    ensures
        joined(Seq::empty(), separator).len() == 0,
        joined(seq![part], separator) == part,
        parts.len() > 0 ==> joined(parts.push(part), separator) == joined(parts, separator)
            + separator + part,
{
    assert(parts.push(part).drop_last() =~= parts);
}

/// A text is split at its line feeds. A carriage return before one is dropped, and
/// nothing after the last one is no line.
pub proof fn law_lines(line: Seq<char>, rest: Seq<char>)
    requires
        forall|i: int| 0 <= i < line.len() ==> #[trigger] line[i] != '\n',
    ensures
        lines(Seq::empty()).len() == 0,
        line.len() > 0 ==> lines(line) == seq![line],
        lines(line.push('\n') + rest) == seq![
            if line.len() > 0 && line.last() == '\r' {
                line.drop_last()
            } else {
                line
            },
        ] + lines(rest),
{
    lemma_position(line, CharClass::LineFeed);
    let s = line.push('\n') + rest;
    let n = line.len() as int;
    lemma_position(s, CharClass::LineFeed);
    let p = position(s, CharClass::LineFeed) as int;
    assert(s[n] == '\n');
    if p < n {
        assert(s[p] == line[p]);
    }
    assert(p == n);
    assert(s.take(n) =~= line);
    assert(s.skip(n + 1) =~= rest);
    assert(drop_return(line) == if line.len() > 0 && line.last() == '\r' {
        line.drop_last()
    } else {
        line
    });
}

/// The `n` characters of `s` from `at` on.
pub open spec fn part_at(s: Seq<char>, n: int, at: int) -> Seq<char> {
    s.subrange(at, at + n)
}

/// Replacing goes on after the first occurrence, and changes nothing where there is
/// none.
pub proof fn law_replacing(a: Seq<char>, pattern: Seq<char>, b: Seq<char>, to: Seq<char>)
    requires
        pattern.len() > 0,
        forall|at: int|
            0 <= at < a.len() ==> #[trigger] part_at(a + pattern + b, pattern.len() as int, at)
                != pattern,
    ensures
        replace_all(a + pattern + b, pattern, to) == a + to + replace_all(b, pattern, to),
        !occurs(b, pattern) ==> replace_all(b, pattern, to) == b,
    decreases a.len(),
{
    let s = a + pattern + b;
    if !occurs(b, pattern) {
        lemma_replace_absent(b, pattern, to);
    }
    if a.len() == 0 {
        assert(s.subrange(0, pattern.len() as int) =~= pattern);
        assert(s.skip(pattern.len() as int) =~= b);
        assert(to + replace_all(b, pattern, to) =~= a + to + replace_all(b, pattern, to));
    } else {
        assert(part_at(s, pattern.len() as int, 0) != pattern);
        assert(!starts_with(s, pattern));
        let shorter = a.skip(1);
        let rest = shorter + pattern + b;
        assert(s.skip(1) =~= rest);
        let n = pattern.len() as int;
        assert forall|at: int| 0 <= at < shorter.len() implies #[trigger] part_at(rest, n, at)
            != pattern by {
            assert(part_at(rest, n, at) =~= part_at(s, n, at + 1));
        }
        law_replacing(shorter, pattern, b, to);
        assert(seq![s[0]] + (shorter + to + replace_all(b, pattern, to)) =~= a + to + replace_all(
            b,
            pattern,
            to,
        ));
    }
}

/// Copies of a pattern at the front are dropped, all of them.
pub proof fn law_trimming_prefixes(s: Seq<char>, pattern: Seq<char>)
    requires
        pattern.len() > 0,
    ensures
        trim_prefixes(pattern + s, pattern) == trim_prefixes(s, pattern),
        !pattern.is_prefix_of(s) ==> trim_prefixes(s, pattern) == s,
{
    assert((pattern + s).subrange(0, pattern.len() as int) =~= pattern);
    assert((pattern + s).skip(pattern.len() as int) =~= s);
    if starts_with(s, pattern) {
        assert(pattern =~= s.subrange(0, pattern.len() as int));
    }
}

/// A pattern stands at a place if and only if its characters do, one by one.
pub proof fn law_standing_at_a_place(s: Seq<char>, pattern: Seq<char>, at: int)
    ensures
        occurs_at(s, pattern, at) <==> {
            &&& 0 <= at
            &&& at + pattern.len() <= s.len()
            &&& forall|i: int| 0 <= i < pattern.len() ==> s[at + i] == #[trigger] pattern[i]
        },
{
    if 0 <= at && at + pattern.len() <= s.len() {
        let piece = s.subrange(at, at + pattern.len());
        if forall|i: int| 0 <= i < pattern.len() ==> s[at + i] == #[trigger] pattern[i] {
            assert(piece =~= pattern);
        }
        if piece == pattern {
            assert forall|i: int| 0 <= i < pattern.len() implies s[at + i]
                == #[trigger] pattern[i] by {
                assert(piece[i] == s[at + i]);
            }
        }
    }
}

/// Which characters are ASCII digits, and which are ASCII letters or digits.
pub proof fn law_ascii_digits(c: char)
    ensures
        ascii_digit(c) <==> 48 <= c as u32 <= 57,
        ascii_alphanumeric(c) <==> (48 <= c as u32 <= 57 || 65 <= c as u32 <= 90 || 97 <= c as u32
            <= 122),
{
}

/// The texts of strings, of vectors of characters and of a string that may be missing
/// are their own.
pub proof fn law_values_of_texts(
    list: Seq<String>,
    vectors: Seq<Vec<char>>,
    text: String,
    i: int,
)
    ensures
        strings(list).len() == list.len(),
        0 <= i < list.len() ==> strings(list)[i] == list[i]@,
        texts(vectors).len() == vectors.len(),
        0 <= i < vectors.len() ==> texts(vectors)[i] == vectors[i]@,
        optional_text(Some(text)) == Some(text@),
        optional_text(None) is None,
{
}

} // verus!
