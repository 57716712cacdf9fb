//! Which part names stand for which chips.

use crate::chip::{
    after_vendor, chip_name, cuts_cleanly, has_family, lemma_ascii_start_cuts,
    lemma_trim_back_start,
};
use crate::laws::text::{all_of, law_trimming, lemma_trim_front_is, lemma_trim_is};
use crate::text::{
    ascii_lower, ascii_upper, lower_text, trim, trim_front, white_space, CharClass,
};
use vstd::prelude::*;
use vstd::utf8::{
    encode_scalar, encode_utf8, encode_utf8_first_scalar, encode_utf8_valid_utf8,
    has_width_1_encoding, is_ascii_chars, is_char_boundary, pop_first_scalar,
};

verus! {

/// The capital form of an ASCII letter; any other character is itself.
pub open spec fn capital(c: char) -> char {
    if 97 <= c as u32 <= 122 {
        (c as u32 - 32) as char
    } else {
        c
    }
}

/// Whether `body` is the start of the name of an STM32 part, in small letters or
/// capitals: the vendor, a product line with three digits, and the codes for pins and
/// flash.
pub open spec fn starts_part_name(body: Seq<char>) -> bool {
    &&& body.len() == 11
    &&& capital(body[0]) == 'S'
    &&& capital(body[1]) == 'T'
    &&& capital(body[2]) == 'M'
    &&& body[3] == '3'
    &&& body[4] == '2'
    &&& seq!['A', 'C', 'F', 'G', 'H', 'L', 'U', 'W'].contains(capital(body[5]))
    &&& forall|i: int| 6 <= i < 9 ==> '0' <= #[trigger] body[i] <= '9'
    &&& forall|i: int|
        9 <= i < 11 ==> ('0' <= #[trigger] body[i] <= '9' || 'A' <= capital(body[i]) <= 'Z')
}

/// Whether `chip` is `body` in capitals.
pub open spec fn in_capitals(chip: Seq<char>, body: Seq<char>) -> bool {
    &&& chip.len() == body.len()
    &&& forall|i: int| 0 <= i < body.len() ==> #[trigger] chip[i] == capital(body[i])
}

/// After white space, the start of a part name stands for the chip that it names in
/// capitals, whatever follows.
pub proof fn law_part_name_gives_chip(lead: Seq<char>, body: Seq<char>, tail: Seq<char>)
    requires
        all_of(lead, CharClass::White),
        starts_part_name(body),
    ensures
        chip_name(lead + body + tail) matches Some(chip) && in_capitals(chip, body),
{
    reveal_strlit("stm32");
    reveal_strlit("STM32");
    let raw = lead + body + tail;
    let front = body + tail;
    assert(raw =~= lead + front);
    assert(front[0] == body[0]);
    lemma_trim_front_is(lead, front, CharClass::White);
    lemma_trim_back_start(front);
    assert(front[10] == body[10]);
    let short = trim(raw, CharClass::White);
    assert(short.len() >= 11);
    assert forall|i: int| 0 <= i < 11 implies #[trigger] short[i] == body[i] by {
        assert(short[i] == front[i]);
    }
    let name = lower_text(short);
    assert(name.subrange(0, 5) =~= "stm32"@);
    let rest = after_vendor(raw)->0;
    assert forall|i: int| 0 <= i < 6 implies #[trigger] rest[i] == ascii_lower(
        body[i + 5],
    ) by {
        assert(rest[i] == name[i + 5]);
        assert(short[i + 5] == body[i + 5]);
    }
    let letters = seq!['A', 'C', 'F', 'G', 'H', 'L', 'U', 'W'];
    let k = choose|k: int| 0 <= k < letters.len() && letters[k] == capital(body[5]);
    assert(letters[k] == capital(body[5]));
    assert('0' <= body[6] <= '9' && '0' <= body[7] <= '9' && '0' <= body[8] <= '9');
    assert(rest[0] == ascii_lower(body[5]));
    assert(rest[1] == body[6] && rest[2] == body[7] && rest[3] == body[8]);
    assert(rest[4] == ascii_lower(body[9]));
    assert(rest[5] == ascii_lower(body[10]));
    assert(has_family(rest));
    let chip = chip_name(raw)->0;
    assert forall|i: int| 0 <= i < 11 implies #[trigger] chip[i] == capital(body[i]) by {
        if i >= 5 {
            assert(chip[i] == ascii_upper(rest.take(6)[i - 5]));
            assert(rest.take(6)[i - 5] == rest[i - 5]);
        } else {
            assert(chip[i] == "STM32"@[i]);
        }
    }
}

/// Whether, after white space alone, the start of a part name stands in `raw` at `k`,
/// and `chip` is that in capitals.
pub open spec fn names_chip_at(raw: Seq<char>, k: int, chip: Seq<char>) -> bool {
    &&& 0 <= k
    &&& k + 11 <= raw.len()
    &&& all_of(raw.take(k), CharClass::White)
    &&& starts_part_name(raw.subrange(k, k + 11))
    &&& in_capitals(chip, raw.subrange(k, k + 11))
}

/// Nothing else stands for a chip.
pub proof fn law_only_part_names_give_chips(raw: Seq<char>)
    ensures
        chip_name(raw) matches Some(chip) ==> exists|k: int| #[trigger] names_chip_at(raw, k, chip),
{
    if let Some(chip) = chip_name(raw) {
        reveal_strlit("stm32");
        reveal_strlit("STM32");
        law_trimming(raw, CharClass::White);
        let front = trim_front(raw, CharClass::White);
        let a = choose|a: Seq<char>|
            raw == #[trigger] (a + trim_front(raw, CharClass::White)) && all_of(
                a,
                CharClass::White,
            );
        let k = a.len() as int;
        lemma_trim_back_start(front);
        let short = trim(raw, CharClass::White);
        let name = lower_text(short);
        let rest = after_vendor(raw)->0;
        let body = raw.subrange(k, k + 11);
        assert(raw.take(k) =~= a);
        assert(name.len() >= 11);
        assert forall|i: int| 0 <= i < 11 implies #[trigger] name[i] == ascii_lower(
            body[i],
        ) by {
            assert(short[i] == front[i]);
            assert(front[i] == raw[k + i]);
            assert(body[i] == raw[k + i]);
        }
        assert forall|i: int| 0 <= i < 5 implies #[trigger] name[i] == "stm32"@[i] by {
            assert(name.subrange(0, 5)[i] == name[i]);
        }
        assert forall|i: int| 0 <= i < 6 implies #[trigger] rest[i] == name[i + 5] by {}
        let letters = seq!['A', 'C', 'F', 'G', 'H', 'L', 'U', 'W'];
        let c = capital(body[5]);
        assert(rest[0] == name[5]);
        assert(letters.contains(c)) by {
            let at: int = if c == 'A' {
                0
            } else if c == 'C' {
                1
            } else if c == 'F' {
                2
            } else if c == 'G' {
                3
            } else if c == 'H' {
                4
            } else if c == 'L' {
                5
            } else if c == 'U' {
                6
            } else {
                7
            };
            assert(letters[at] == c);
        }
        assert(rest[1] == name[6] && rest[2] == name[7] && rest[3] == name[8]);
        assert(rest[4] == name[9] && rest[5] == name[10]);
        assert(name[0] == 's' && name[1] == 't' && name[2] == 'm' && name[3] == '3' && name[4]
            == '2');
        assert(starts_part_name(body));
        assert forall|i: int| 0 <= i < 11 implies #[trigger] chip[i] == capital(body[i]) by {
            assert(name[i] == ascii_lower(body[i]));
            if i >= 5 {
                assert(chip[i] == ascii_upper(rest.take(6)[i - 5]));
                assert(rest.take(6)[i - 5] == rest[i - 5]);
            } else {
                assert(chip[i] == "STM32"@[i]);
            }
        }
        assert(names_chip_at(raw, k, chip));
    }
}

proof fn lemma_no_boundary(chars: Seq<char>, m: int, k: int)
    requires
        0 <= m < chars.len(),
        is_ascii_chars(chars.take(m)),
        m < k < m + encode_scalar(chars[m] as u32).len(),
    ensures
        !is_char_boundary(encode_utf8(chars), k),
    decreases m,
{
    let bytes = encode_utf8(chars);
    let others = chars.drop_first();
    encode_utf8_valid_utf8(chars);
    encode_utf8_valid_utf8(others);
    encode_utf8_first_scalar(chars);
    assert(pop_first_scalar(bytes) =~= encode_utf8(others));
    if m > 0 {
        assert(chars.take(m)[0] == chars[0]);
        assert(others.take(m - 1) =~= chars.take(m).drop_first());
        assert(others[m - 1] == chars[m]);
        assert(has_width_1_encoding(chars[0] as u32));
        lemma_no_boundary(others, m - 1, k - 1);
    } else {
        let width = encode_scalar(chars[0] as u32).len();
        assert(!is_char_boundary(encode_utf8(others), k - width));
    }
}

proof fn lemma_after_vendor(lead: Seq<char>, rest: Seq<char>)
    requires
        all_of(lead, CharClass::White),
        rest.len() > 0,
        !white_space(rest.last()),
        lower_text(rest) == rest,
    ensures
        after_vendor(lead + "stm32"@ + rest) == Some(rest),
{
    reveal_strlit("stm32");
    let name = "stm32"@ + rest;
    let none = Seq::<char>::empty();
    assert(lead + "stm32"@ + rest =~= lead + name + none);
    assert(name[0] == 's');
    assert(name.last() == rest.last());
    lemma_trim_is(lead, name, none, CharClass::White);
    assert(lower_text(name) =~= name) by {
        assert forall|i: int| 0 <= i < name.len() implies lower_text(name)[i] == name[i] by {
            if i >= 5 {
                assert(name[i] == rest[i - 5]);
                assert(lower_text(rest)[i - 5] == rest[i - 5]);
            }
        }
    }
    assert(name.subrange(0, 5) =~= "stm32"@);
    assert(name.skip(5) =~= rest);
}

/// The codes of a part name cannot be cut out where a character that takes several
/// bytes lies across the end of the family, or across the end of the codes of a part
/// with a family.
pub proof fn law_codes_across_a_character(lead: Seq<char>, rest: Seq<char>, m: int)
    requires
        all_of(lead, CharClass::White),
        0 <= m < rest.len(),
        !white_space(rest.last()),
        lower_text(rest) == rest,
        is_ascii_chars(rest.take(m)),
        encode_utf8(rest).len() >= 6,
    ensures
        m < 4 < m + encode_scalar(rest[m] as u32).len() ==> !cuts_cleanly(lead + "stm32"@ + rest),
        has_family(rest) && encode_utf8(rest).len() > 6 && m < 6 < m + encode_scalar(
            rest[m] as u32,
        ).len() ==> !cuts_cleanly(lead + "stm32"@ + rest),
{
    lemma_after_vendor(lead, rest);
    if m < 4 < m + encode_scalar(rest[m] as u32).len() {
        lemma_no_boundary(rest, m, 4);
    }
    if m < 6 < m + encode_scalar(rest[m] as u32).len() {
        lemma_no_boundary(rest, m, 6);
    }
}

/// A family is the letter of a product line and three digits.
pub proof fn law_families(rest: Seq<char>)
    ensures
        has_family(rest) <==> {
            &&& rest.len() >= 4
            &&& seq!['a', 'c', 'f', 'g', 'h', 'l', 'u', 'w'].contains(rest[0])
            &&& forall|i: int| 1 <= i < 4 ==> '0' <= #[trigger] rest[i] <= '9'
        },
{
    let letters = seq!['a', 'c', 'f', 'g', 'h', 'l', 'u', 'w'];
    if has_family(rest) {
        let c = rest[0];
        let at: int = if c == 'a' {
            0
        } else if c == 'c' {
            1
        } else if c == 'f' {
            2
        } else if c == 'g' {
            3
        } else if c == 'h' {
            4
        } else if c == 'l' {
            5
        } else if c == 'u' {
            6
        } else {
            7
        };
        assert(letters[at] == c);
    }
    if rest.len() >= 4 && letters.contains(rest[0]) && forall|i: int|
        1 <= i < 4 ==> '0' <= #[trigger] rest[i] <= '9' {
        let k = choose|k: int| 0 <= k < letters.len() && letters[k] == rest[0];
        assert(letters[k] == rest[0]);
        assert('0' <= rest[1] <= '9' && '0' <= rest[2] <= '9' && '0' <= rest[3] <= '9');
    }
}

/// They can be cut out where six ASCII characters follow the vendor, where less than six
/// bytes do, and where four ASCII characters do that are no family or of which only six
/// bytes are left.
pub proof fn law_ascii_codes_can_be_cut(lead: Seq<char>, rest: Seq<char>)
    requires
        all_of(lead, CharClass::White),
        rest.len() > 0,
        !white_space(rest.last()),
        lower_text(rest) == rest,
    ensures
        rest.len() >= 6 && is_ascii_chars(rest.take(6)) ==> cuts_cleanly(lead + "stm32"@ + rest),
        encode_utf8(rest).len() < 6 ==> cuts_cleanly(lead + "stm32"@ + rest),
        rest.len() >= 4 && is_ascii_chars(rest.take(4)) && (!has_family(rest) || encode_utf8(
            rest,
        ).len() == 6) ==> cuts_cleanly(lead + "stm32"@ + rest),
{
    lemma_after_vendor(lead, rest);
    if rest.len() >= 6 && is_ascii_chars(rest.take(6)) {
        assert(is_ascii_chars(rest.take(4))) by {
            assert forall|i: int| 0 <= i < 4 implies '\0' <= #[trigger] rest.take(4)[i]
                <= '\u{7f}' by {
                assert(rest.take(6)[i] == rest.take(4)[i]);
            }
        }
        lemma_ascii_start_cuts(rest, 6);
    }
    if rest.len() >= 4 && is_ascii_chars(rest.take(4)) {
        lemma_ascii_start_cuts(rest, 4);
    }
}

/// A name that does not start with the vendor, in small letters or capitals, needs no
/// cut.
pub proof fn law_other_vendors_need_no_cut(raw: Seq<char>, i: int)
    requires
        trim(raw, CharClass::White).len() < 5 || (0 <= i < 5 && capital(
            trim(raw, CharClass::White)[i],
        ) != seq!['S', 'T', 'M', '3', '2'][i]),
    ensures
        cuts_cleanly(raw),
{
    reveal_strlit("stm32");
    let short = trim(raw, CharClass::White);
    let name = lower_text(short);
    if after_vendor(raw) is Some {
        assert(name.subrange(0, 5)[i] == name[i]);
        assert("stm32"@[i] == seq!['s', 't', 'm', '3', '2'][i]);
    }
}

} // verus!
