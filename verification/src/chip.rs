//! Chip names.
//!
//! The name of an STM32 part ends in `[pins][flash][package][temperature]`, as
//! in `stm32f407vgt6`. Its family with the first two of these codes is the name
//! by which `probe-rs` knows the target: `STM32F407VG`.

use crate::text::{
    ascii_alphanumeric, ascii_digit, ascii_lower, ascii_upper, chars_of, is_ascii_alphanumeric,
    is_ascii_digit, lower_chars, lower_text, part, stands_at, starts_with, string_of, trim, trim_back, trim_chars,
    trim_front, upper_chars, upper_text, white_space, CharClass,
};
use vstd::prelude::*;
use vstd::utf8::{
    encode_utf8, encode_utf8_first_scalar, encode_utf8_valid_utf8, has_width_1_encoding,
    is_ascii_chars, is_ascii_chars_encode_utf8, is_char_boundary, pop_first_scalar,
};

verus! {

/// What follows `stm32` in a part name, in small letters.
pub open spec fn after_vendor(raw: Seq<char>) -> Option<Seq<char>> {
    let name = lower_text(trim(raw, CharClass::White));
    if starts_with(name, "stm32"@) {
        Some(name.skip("stm32"@.len() as int))
    } else {
        None
    }
}

/// Whether `c` is the letter of a product line.
pub open spec fn family_letter(c: char) -> bool {
    c == 'a' || c == 'c' || c == 'f' || c == 'g' || c == 'h' || c == 'l' || c == 'u' || c == 'w'
}

/// Whether `rest` starts with a family: the letter of a product line and three
/// digits.
pub open spec fn has_family(rest: Seq<char>) -> bool {
    &&& rest.len() >= 4
    &&& family_letter(rest[0])
    &&& ascii_digit(rest[1])
    &&& ascii_digit(rest[2])
    &&& ascii_digit(rest[3])
}

/// Whether `rest` starts with a family, a pin code and a flash code.
pub open spec fn has_codes(rest: Seq<char>) -> bool {
    &&& has_family(rest)
    &&& rest.len() >= 6
    &&& ascii_alphanumeric(rest[4])
    &&& ascii_alphanumeric(rest[5])
}

/// The name of the target that the part name `raw` stands for.
pub open spec fn chip_name(raw: Seq<char>) -> Option<Seq<char>> {
    match after_vendor(raw) {
        Some(rest) => if has_codes(rest) {
            Some("STM32"@ + upper_text(rest.take(6)))
        } else {
            None
        },
        None => None,
    }
}

/// Whether the codes of a part name can be cut out of its bytes: where there are
/// six bytes after `stm32`, the fourth ends a character, and so does the sixth
/// where a family stands before it. Names of ASCII characters are all like
/// that.
pub open spec fn cuts_cleanly(raw: Seq<char>) -> bool {
    match after_vendor(raw) {
        Some(rest) => {
            let bytes = encode_utf8(rest);
            bytes.len() >= 6 ==> {
                &&& is_char_boundary(bytes, 4)
                &&& has_family(rest) && bytes.len() > 6 ==> is_char_boundary(bytes, 6)
            }
        },
        None => true,
    }
}

/// What follows `stm32` in a part name, in small letters.
fn vendor_rest(raw: &str) -> (rest: Option<Vec<char>>)
    ensures
        match rest {
            Some(r) => after_vendor(raw@) == Some(r@),
            None => after_vendor(raw@) is None,
        },
{
    let name = lower_chars(&trim_chars(&chars_of(raw), CharClass::White));
    let vendor = chars_of("stm32");
    if stands_at(&name, &vendor, 0) {
        let rest = part(&name, vendor.len(), name.len());
        assert(rest@ =~= name@.skip(vendor@.len() as int));
        Some(rest)
    } else {
        None
    }
}

/// Whether `rest` starts with a family.
fn starts_with_family(rest: &Vec<char>) -> (family: bool)
    ensures
        family == has_family(rest@),
{
    rest.len() >= 4 && (rest[0] == 'a' || rest[0] == 'c' || rest[0] == 'f' || rest[0] == 'g'
        || rest[0] == 'h' || rest[0] == 'l' || rest[0] == 'u' || rest[0] == 'w') && is_ascii_digit(
        rest[1],
    ) && is_ascii_digit(rest[2]) && is_ascii_digit(rest[3])
}

/// Whether [`infer_chip`] can cut the codes out of `raw`.
pub fn can_cut(raw: &str) -> (clean: bool)
    ensures
        clean == cuts_cleanly(raw@),
{
    match vendor_rest(raw) {
        Some(rest) => {
            let text = string_of(&rest);
            let length: usize = text.as_str().as_bytes().len();
            length < 6 || (text.as_str().is_char_boundary(4) && (!starts_with_family(&rest)
                || length == 6 || text.as_str().is_char_boundary(6)))
        },
        None => true,
    }
}

/// The name of the target that the part name `raw` stands for, if it is the name
/// of an STM32 part: case and surrounding white space do not count, nor does
/// what follows the flash code.
pub fn infer_chip(raw: &str) -> (chip: Option<String>)
    requires
        cuts_cleanly(raw@),
    ensures
        match chip {
            Some(name) => chip_name(raw@) == Some(name@),
            None => chip_name(raw@) is None,
        },
{
    match vendor_rest(raw) {
        Some(rest) => if starts_with_family(&rest) && rest.len() >= 6 && is_ascii_alphanumeric(
            rest[4],
        ) && is_ascii_alphanumeric(rest[5]) {
            let codes = part(&rest, 0, 6);
            assert(codes@ =~= rest@.take(6));
            let mut name = "STM32".to_owned();
            name.append(string_of(&upper_chars(&codes)).as_str());
            Some(name)
        } else {
            None
        },
        None => None,
    }
}

proof fn lemma_strings()
    ensures
        "stm32"@ == seq!['s', 't', 'm', '3', '2'],
        "STM32"@ == seq!['S', 'T', 'M', '3', '2'],
{
    reveal_strlit("stm32");
    reveal_strlit("STM32");
    assert("stm32"@ =~= seq!['s', 't', 'm', '3', '2']);
    assert("STM32"@ =~= seq!['S', 'T', 'M', '3', '2']);
}

/// A text can be cut after ASCII characters that it starts with.
pub proof fn lemma_ascii_start_cuts(rest: Seq<char>, k: int)
    requires
        0 <= k <= rest.len(),
        is_ascii_chars(rest.take(k)),
    ensures
        k <= encode_utf8(rest).len(),
        is_char_boundary(encode_utf8(rest), k),
    decreases k,
{
    let bytes = encode_utf8(rest);
    encode_utf8_valid_utf8(rest);
    if k > 0 {
        let others = rest.drop_first();
        assert(rest.take(k)[0] == rest[0]);
        assert(others.take(k - 1) =~= rest.take(k).drop_first());
        encode_utf8_first_scalar(rest);
        assert(has_width_1_encoding(rest[0] as u32));
        assert(pop_first_scalar(bytes) =~= encode_utf8(others));
        lemma_ascii_start_cuts(others, k - 1);
    }
}

/// The codes can be cut out of every part name that has a target name.
pub proof fn law_named_part_cuts_cleanly(raw: Seq<char>)
    requires
        chip_name(raw) is Some,
    ensures
        cuts_cleanly(raw),
{
    let rest = after_vendor(raw)->0;
    assert forall|k: int| 0 <= k <= 6 implies is_ascii_chars(#[trigger] rest.take(k)) by {
        assert forall|i: int| 0 <= i < k implies '\0' <= #[trigger] rest.take(k)[i] <= '\u{7f}' by {
            assert(rest.take(k)[i] == rest[i]);
        }
    }
    lemma_ascii_start_cuts(rest, 4);
    lemma_ascii_start_cuts(rest, 6);
}

/// A target name stands for itself, and its codes can be cut out of it.
pub proof fn law_chip_name_is_stable(raw: Seq<char>, chip: Seq<char>)
    requires
        chip_name(raw) == Some(chip),
    ensures
        chip_name(chip) == Some(chip),
        cuts_cleanly(chip),
{
    lemma_strings();
    let name = lower_text(trim(raw, CharClass::White));
    let rest = after_vendor(raw)->0;
    let codes = rest.take(6);
    assert forall|i: int| 0 <= i < rest.len() implies !('A' <= #[trigger] rest[i] <= 'Z') by {
        assert(rest[i] == name[i + 5]);
    }
    assert(chip.len() == 11);
    assert(chip[0] == 'S');
    assert(chip.last() == ascii_upper(rest[5]));
    assert(!white_space(chip[0]));
    assert(!white_space(chip.last()));
    assert(trim(chip, CharClass::White) == chip);
    let low = lower_text(chip);
    assert(low =~= "stm32"@ + codes) by {
        assert forall|i: int| 0 <= i < 6 implies low[i + 5] == codes[i] by {
            assert(chip[i + 5] == ascii_upper(rest[i]));
        }
    }
    assert(low.subrange(0, 5) =~= "stm32"@);
    assert(low.skip(5) =~= codes);
    assert(codes.take(6) =~= codes);
    law_named_part_cuts_cleanly(chip);
}

proof fn lemma_trim_front_longer(s: Seq<char>, tail: Seq<char>)
    requires
        trim_front(s, CharClass::White).len() > 0,
    ensures
        trim_front(s + tail, CharClass::White) == trim_front(s, CharClass::White) + tail,
    decreases s.len(),
{
    assert((s + tail)[0] == s[0]);
    if white_space(s[0]) {
        assert((s + tail).skip(1) =~= s.skip(1) + tail);
        lemma_trim_front_longer(s.skip(1), tail);
    }
}

/// Trimming at the end keeps the start of a text, up to its last character that is not
/// white space.
pub proof fn lemma_trim_back_start(s: Seq<char>)
    ensures
        trim_back(s, CharClass::White).len() <= s.len(),
        trim_back(s, CharClass::White) == s.take(trim_back(s, CharClass::White).len() as int),
        forall|k: int|
            0 <= k < s.len() && !white_space(#[trigger] s[k]) ==> k < trim_back(
                s,
                CharClass::White,
            ).len(),
    decreases s.len(),
{
    if s.len() > 0 && white_space(s.last()) {
        let shorter = s.drop_last();
        lemma_trim_back_start(shorter);
        let n = trim_back(shorter, CharClass::White).len() as int;
        assert(shorter.take(n) =~= s.take(n));
        assert forall|k: int| 0 <= k < s.len() && !white_space(#[trigger] s[k]) implies k < n by {
            assert(shorter[k] == s[k]);
        }
    } else {
        assert(s.take(s.len() as int) =~= s);
    }
}

/// What follows the flash code does not count: a part name may go on in any way
/// after it has a target name.
pub proof fn law_chip_name_ignores_tail(raw: Seq<char>, tail: Seq<char>)
    requires
        chip_name(raw) is Some,
    ensures
        chip_name(raw + tail) == chip_name(raw),
        cuts_cleanly(raw + tail),
{
    lemma_strings();
    let front = trim_front(raw, CharClass::White);
    lemma_trim_back_start(front);
    let short = trim(raw, CharClass::White);
    let rest = after_vendor(raw)->0;
    assert(rest[5] == ascii_lower(short[10]));
    assert(!white_space(short[10]));
    assert(short[10] == front[10]);
    lemma_trim_front_longer(raw, tail);
    let longer = front + tail;
    assert(longer[10] == front[10]);
    lemma_trim_back_start(longer);
    let long = trim(raw + tail, CharClass::White);
    assert forall|i: int| 0 <= i < 11 implies lower_text(long)[i] == lower_text(short)[i] by {
        assert(long[i] == longer[i]);
        assert(short[i] == front[i]);
    }
    assert(lower_text(long).subrange(0, 5) =~= lower_text(short).subrange(0, 5));
    let longer_rest = after_vendor(raw + tail)->0;
    assert forall|i: int| 0 <= i < 6 implies longer_rest[i] == rest[i] by {
        assert(longer_rest[i] == lower_text(long)[i + 5]);
        assert(rest[i] == lower_text(short)[i + 5]);
    }
    assert(longer_rest.take(6) =~= rest.take(6));
    law_named_part_cuts_cleanly(raw + tail);
}

proof fn lemma_trim_front_upper(s: Seq<char>)
    ensures
        trim_front(upper_text(s), CharClass::White) == upper_text(trim_front(s, CharClass::White)),
    decreases s.len(),
{
    if s.len() > 0 {
        assert(white_space(ascii_upper(s[0])) == white_space(s[0]));
        assert(upper_text(s).skip(1) =~= upper_text(s.skip(1)));
        lemma_trim_front_upper(s.skip(1));
    }
}

proof fn lemma_trim_back_upper(s: Seq<char>)
    ensures
        trim_back(upper_text(s), CharClass::White) == upper_text(trim_back(s, CharClass::White)),
    decreases s.len(),
{
    if s.len() > 0 {
        assert(white_space(ascii_upper(s.last())) == white_space(s.last()));
        assert(upper_text(s).last() == ascii_upper(s.last()));
        assert(upper_text(s).drop_last() =~= upper_text(s.drop_last()));
        lemma_trim_back_upper(s.drop_last());
    }
}

/// Whether a part name is written in capitals makes no difference.
pub proof fn law_chip_name_ignores_case(raw: Seq<char>)
    ensures
        chip_name(upper_text(raw)) == chip_name(raw),
        cuts_cleanly(upper_text(raw)) == cuts_cleanly(raw),
{
    lemma_trim_front_upper(raw);
    lemma_trim_back_upper(trim_front(raw, CharClass::White));
    let name = trim(raw, CharClass::White);
    assert(lower_text(upper_text(name)) =~= lower_text(name));
}

proof fn lemma_trim_back_ascii(s: Seq<char>)
    requires
        is_ascii_chars(s),
    ensures
        is_ascii_chars(trim_back(s, CharClass::White)),
    decreases s.len(),
{
    if s.len() > 0 && white_space(s.last()) {
        lemma_trim_back_ascii(s.drop_last());
    }
}

proof fn lemma_trim_ascii(s: Seq<char>)
    requires
        is_ascii_chars(s),
    ensures
        is_ascii_chars(trim(s, CharClass::White)),
    decreases s.len(),
{
    if s.len() > 0 && white_space(s[0]) {
        lemma_trim_ascii(s.skip(1));
    } else {
        lemma_trim_back_ascii(s);
    }
}

/// The codes can be cut out of every part name of ASCII characters.
pub proof fn law_ascii_cuts_cleanly(raw: Seq<char>)
    requires
        is_ascii_chars(raw),
    ensures
        cuts_cleanly(raw),
{
    lemma_strings();
    lemma_trim_ascii(raw);
    let name = lower_text(trim(raw, CharClass::White));
    assert(is_ascii_chars(name));
    if let Some(rest) = after_vendor(raw) {
        assert(is_ascii_chars(rest)) by {
            assert forall|i: int| 0 <= i < rest.len() implies '\0' <= #[trigger] rest[i]
                <= '\u{7f}' by {
                assert(rest[i] == name[i + 5]);
            }
        }
        is_ascii_chars_encode_utf8(rest);
        if rest.len() >= 6 {
            assert forall|k: int| 0 <= k <= 6 implies is_ascii_chars(#[trigger] rest.take(k)) by {
                assert forall|i: int| 0 <= i < k implies '\0' <= #[trigger] rest.take(k)[i]
                    <= '\u{7f}' by {
                    assert(rest.take(k)[i] == rest[i]);
                }
            }
            lemma_ascii_start_cuts(rest, 4);
            lemma_ascii_start_cuts(rest, 6);
        }
    }
}

} // verus!
