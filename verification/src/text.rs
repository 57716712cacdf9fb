//! Text as sequences of characters.
//!
//! Contracts speak of `Seq<char>`; the functions work on vectors of
//! characters, which can be indexed.

use vstd::prelude::*;

verus! {

/// Appending one character, as `String::push` documents it: the text is what it
/// was, followed by `c`.
pub assume_specification[ String::push ](s: &mut String, c: char)
    ensures
        final(s)@ == old(s)@.push(c),
;

/// The characters of `s`, in order.
pub fn chars_of(s: &str) -> (chars: Vec<char>)
    ensures
        chars@ == s@,
{
    let mut chars: Vec<char> = Vec::new();
    for c in it: s.chars()
        invariant
            it.seq() == s@,
            chars@ == s@.take(it.index()),
    {
        chars.push(c);
        assert(s@.take(it.index() + 1) =~= s@.take(it.index()).push(c));
    }
    assert(s@.take(s@.len() as int) =~= s@);
    chars
}

/// The text made of `chars`.
pub fn string_of(chars: &Vec<char>) -> (s: String)
    ensures
        s@ == chars@,
{
    let mut s = String::new();
    for i in 0..chars.len()
        invariant
            s@ == chars@.take(i as int),
    {
        s.push(chars[i]);
        assert(chars@.take(i + 1) =~= chars@.take(i as int).push(chars@[i as int]));
    }
    assert(chars@.take(chars@.len() as int) =~= chars@);
    s
}

/// Whether two texts are the same.
pub fn same_text(a: &str, b: &str) -> (same: bool)
    ensures
        same == (a@ == b@),
{
    a.to_owned() == b.to_owned()
}

/// Whether `c` has the Unicode property `White_Space`.
pub open spec fn white_space(c: char) -> bool {
    let n = c as u32;
    ||| 0x9 <= n <= 0xd
    ||| n == 0x20
    ||| n == 0x85
    ||| n == 0xa0
    ||| n == 0x1680
    ||| 0x2000 <= n <= 0x200a
    ||| n == 0x2028
    ||| n == 0x2029
    ||| n == 0x202f
    ||| n == 0x205f
    ||| n == 0x3000
}

/// Whether `c` has the Unicode property `White_Space`.
pub fn is_white_space(c: char) -> (white: bool)
    ensures
        white == white_space(c),
{
    let n: u32 = c as u32;
    (0x9 <= n && n <= 0xd) || n == 0x20 || n == 0x85 || n == 0xa0 || n == 0x1680 || (0x2000 <= n
        && n <= 0x200a) || n == 0x2028 || n == 0x2029 || n == 0x202f || n == 0x205f || n == 0x3000
}

/// Whether `c` is one of the digits `0` to `9`.
pub open spec fn ascii_digit(c: char) -> bool {
    '0' <= c <= '9'
}

/// Whether `c` is an ASCII letter or digit.
pub open spec fn ascii_alphanumeric(c: char) -> bool {
    ascii_digit(c) || 'a' <= c <= 'z' || 'A' <= c <= 'Z'
}

/// `c` with an ASCII capital turned into the small letter.
pub open spec fn ascii_lower(c: char) -> char {
    if 'A' <= c <= 'Z' {
        (c as u32 + 32) as char
    } else {
        c
    }
}

/// `c` with a small ASCII letter turned into the capital.
pub open spec fn ascii_upper(c: char) -> char {
    if 'a' <= c <= 'z' {
        (c as u32 - 32) as char
    } else {
        c
    }
}

/// `s` with its ASCII capitals turned into small letters.
pub open spec fn lower_text(s: Seq<char>) -> Seq<char> {
    s.map_values(|c: char| ascii_lower(c))
}

/// `s` with its small ASCII letters turned into capitals.
pub open spec fn upper_text(s: Seq<char>) -> Seq<char> {
    s.map_values(|c: char| ascii_upper(c))
}

/// Whether `c` is one of the digits `0` to `9`.
pub fn is_ascii_digit(c: char) -> (digit: bool)
    ensures
        digit == ascii_digit(c),
{
    '0' <= c && c <= '9'
}

/// Whether `c` is an ASCII letter or digit.
pub fn is_ascii_alphanumeric(c: char) -> (alphanumeric: bool)
    ensures
        alphanumeric == ascii_alphanumeric(c),
{
    is_ascii_digit(c) || ('a' <= c && c <= 'z') || ('A' <= c && c <= 'Z')
}

/// `c` with an ASCII capital turned into the small letter.
pub fn to_ascii_lower(c: char) -> (low: char)
    ensures
        low == ascii_lower(c),
{
    if 'A' <= c && c <= 'Z' {
        (c as u8 + 32) as char
    } else {
        c
    }
}

/// `c` with a small ASCII letter turned into the capital.
pub fn to_ascii_upper(c: char) -> (high: char)
    ensures
        high == ascii_upper(c),
{
    if 'a' <= c && c <= 'z' {
        (c as u8 - 32) as char
    } else {
        c
    }
}

/// `s` with its ASCII capitals turned into small letters.
pub fn lower_chars(s: &Vec<char>) -> (low: Vec<char>)
    ensures
        low@ == lower_text(s@),
{
    let mut low: Vec<char> = Vec::new();
    for i in 0..s.len()
        invariant
            low@ == lower_text(s@).take(i as int),
    {
        low.push(to_ascii_lower(s[i]));
        assert(low@ =~= lower_text(s@).take(i + 1));
    }
    assert(lower_text(s@).take(s@.len() as int) =~= lower_text(s@));
    low
}

/// `s` with its small ASCII letters turned into capitals.
pub fn upper_chars(s: &Vec<char>) -> (high: Vec<char>)
    ensures
        high@ == upper_text(s@),
{
    let mut high: Vec<char> = Vec::new();
    for i in 0..s.len()
        invariant
            high@ == upper_text(s@).take(i as int),
    {
        high.push(to_ascii_upper(s[i]));
        assert(high@ =~= upper_text(s@).take(i + 1));
    }
    assert(upper_text(s@).take(s@.len() as int) =~= upper_text(s@));
    high
}

/// The characters from `from` up to `to`.
pub fn part(s: &Vec<char>, from: usize, to: usize) -> (piece: Vec<char>)
    requires
        from <= to <= s@.len(),
    ensures
        piece@ == s@.subrange(from as int, to as int),
{
    let mut piece: Vec<char> = Vec::new();
    for i in from..to
        invariant
            from <= to <= s@.len(),
            piece@ == s@.subrange(from as int, i as int),
    {
        piece.push(s[i]);
        assert(piece@ =~= s@.subrange(from as int, i + 1));
    }
    piece
}

/// The kinds of character that a text is searched or trimmed by.
#[derive(Debug, PartialEq, Eq, Clone, Copy)]
pub enum CharClass {
    /// White space.
    White,
    /// A single or double quotation mark.
    Quote,
    /// The line feed.
    LineFeed,
    /// The number sign.
    NumberSign,
    /// A closing parenthesis or white space.
    ArgumentEnd,
}

impl CharClass {
    /// Whether `c` is of this kind.
    pub open spec fn has(self, c: char) -> bool {
        match self {
            CharClass::White => white_space(c),
            CharClass::Quote => c == '"' || c == '\'',
            CharClass::LineFeed => c == '\n',
            CharClass::NumberSign => c == '#',
            CharClass::ArgumentEnd => c == ')' || white_space(c),
        }
    }

    /// Whether `c` is of this kind.
    pub fn contains(self, c: char) -> (inside: bool)
        ensures
            inside == self.has(c),
    {
        match self {
            CharClass::White => is_white_space(c),
            CharClass::Quote => c == '"' || c == '\'',
            CharClass::LineFeed => c == '\n',
            CharClass::NumberSign => c == '#',
            CharClass::ArgumentEnd => c == ')' || is_white_space(c),
        }
    }
}

/// Where the first character of the kind stands, or the length of `s` if there
/// is none.
pub open spec fn position(s: Seq<char>, class: CharClass) -> nat
    decreases s.len(),
{
    if s.len() == 0 || class.has(s[0]) {
        0
    } else {
        1 + position(s.skip(1), class)
    }
}

/// `s` before its first character of the kind.
pub open spec fn before(s: Seq<char>, class: CharClass) -> Seq<char> {
    s.take(position(s, class) as int)
}

/// `s` without the characters of the kind that it starts with.
pub open spec fn trim_front(s: Seq<char>, class: CharClass) -> Seq<char>
    decreases s.len(),
{
    if s.len() > 0 && class.has(s[0]) {
        trim_front(s.skip(1), class)
    } else {
        s
    }
}

/// `s` without the characters of the kind that it ends with.
pub open spec fn trim_back(s: Seq<char>, class: CharClass) -> Seq<char>
    decreases s.len(),
{
    if s.len() > 0 && class.has(s.last()) {
        trim_back(s.drop_last(), class)
    } else {
        s
    }
}

/// `s` without the characters of the kind at either end.
pub open spec fn trim(s: Seq<char>, class: CharClass) -> Seq<char> {
    trim_back(trim_front(s, class), class)
}

/// Where the first character of the kind stands at or after `from`, or the
/// length of `s` if there is none.
pub fn find_class(s: &Vec<char>, from: usize, class: CharClass) -> (at: usize)
    requires
        from <= s@.len(),
    ensures
        from <= at <= s@.len(),
        at - from == position(s@.skip(from as int), class),
        at < s@.len() ==> class.has(s@[at as int]),
{
    let mut at: usize = from;
    while at < s.len() && !class.contains(s[at])
        invariant
            from <= at <= s@.len(),
            position(s@.skip(from as int), class) == at - from + position(
                s@.skip(at as int),
                class,
            ),
        decreases s@.len() - at,
    {
        assert(s@.skip(at as int).skip(1) =~= s@.skip(at + 1));
        at = at + 1;
    }
    at
}

/// `s` without the characters of the kind that it starts with.
pub fn trim_front_chars(s: &Vec<char>, class: CharClass) -> (rest: Vec<char>)
    ensures
        rest@ == trim_front(s@, class),
{
    let mut at: usize = 0;
    assert(s@.skip(0) =~= s@);
    while at < s.len() && class.contains(s[at])
        invariant
            at <= s@.len(),
            trim_front(s@, class) == trim_front(s@.skip(at as int), class),
        decreases s@.len() - at,
    {
        assert(s@.skip(at as int).skip(1) =~= s@.skip(at + 1));
        at = at + 1;
    }
    assert(s@.subrange(at as int, s@.len() as int) =~= s@.skip(at as int));
    part(s, at, s.len())
}

/// `s` without the characters of the kind at either end.
pub fn trim_chars(s: &Vec<char>, class: CharClass) -> (rest: Vec<char>)
    ensures
        rest@ == trim(s@, class),
{
    let front = trim_front_chars(s, class);
    let mut end: usize = front.len();
    assert(front@.take(end as int) =~= front@);
    while end > 0 && class.contains(front[end - 1])
        invariant
            end <= front@.len(),
            trim_back(front@, class) == trim_back(front@.take(end as int), class),
        decreases end,
    {
        assert(front@.take(end as int).drop_last() =~= front@.take(end - 1));
        end = end - 1;
    }
    assert(front@.subrange(0, end as int) =~= front@.take(end as int));
    part(&front, 0, end)
}

/// Whether `pattern` stands in `s` at index `at`.
pub open spec fn occurs_at(s: Seq<char>, pattern: Seq<char>, at: int) -> bool {
    &&& 0 <= at
    &&& at + pattern.len() <= s.len()
    &&& s.subrange(at, at + pattern.len()) == pattern
}

/// Whether `pattern` stands anywhere in `s`.
pub open spec fn occurs(s: Seq<char>, pattern: Seq<char>) -> bool {
    exists|at: int| occurs_at(s, pattern, at)
}

/// Whether `s` starts with `pattern`.
pub open spec fn starts_with(s: Seq<char>, pattern: Seq<char>) -> bool {
    occurs_at(s, pattern, 0)
}

/// Whether `s` ends with `pattern`.
pub open spec fn ends_with(s: Seq<char>, pattern: Seq<char>) -> bool {
    occurs_at(s, pattern, s.len() - pattern.len())
}

/// Whether `pattern` stands in `s` at index `at`.
pub fn stands_at(s: &Vec<char>, pattern: &Vec<char>, at: usize) -> (found: bool)
    requires
        at <= s@.len(),
    ensures
        found == occurs_at(s@, pattern@, at as int),
{
    let length: usize = s.len();
    if length - at < pattern.len() {
        return false;
    }
    let ghost piece = s@.subrange(at as int, at + pattern@.len());
    for i in 0..pattern.len()
        invariant
            length == s@.len(),
            at + pattern@.len() <= length,
            piece == s@.subrange(at as int, at + pattern@.len()),
            piece.take(i as int) == pattern@.take(i as int),
    {
        assert(piece[i as int] == s@[at + i]);
        if s[at + i] != pattern[i] {
            assert(piece[i as int] != pattern@[i as int]);
            return false;
        }
        assert(piece.take(i + 1) =~= piece.take(i as int).push(piece[i as int]));
        assert(pattern@.take(i + 1) =~= pattern@.take(i as int).push(pattern@[i as int]));
    }
    assert(piece.take(pattern@.len() as int) =~= piece);
    assert(pattern@.take(pattern@.len() as int) =~= pattern@);
    true
}

/// Whether `pattern` stands anywhere in `s`.
pub fn contains(s: &str, pattern: &str) -> (found: bool)
    ensures
        found == occurs(s@, pattern@),
{
    let text = chars_of(s);
    let wanted = chars_of(pattern);
    let mut at: usize = 0;
    while at <= text.len()
        invariant
            text@ == s@,
            wanted@ == pattern@,
            at <= text@.len() + 1,
            forall|i: int| 0 <= i < at ==> !occurs_at(s@, pattern@, i),
        decreases text@.len() + 1 - at,
    {
        if stands_at(&text, &wanted, at) {
            return true;
        }
        if at == text.len() {
            assert(!occurs(s@, pattern@));
            return false;
        }
        at = at + 1;
    }
    false
}

/// Whether `s` ends with `pattern`.
pub fn has_suffix(s: &str, pattern: &str) -> (found: bool)
    ensures
        found == ends_with(s@, pattern@),
{
    let text = chars_of(s);
    let wanted = chars_of(pattern);
    text.len() >= wanted.len() && stands_at(&text, &wanted, text.len() - wanted.len())
}

/// `s` without the copies of `pattern` that it starts with.
pub open spec fn trim_prefixes(s: Seq<char>, pattern: Seq<char>) -> Seq<char>
    decreases s.len(),
{
    if pattern.len() > 0 && starts_with(s, pattern) {
        trim_prefixes(s.skip(pattern.len() as int), pattern)
    } else {
        s
    }
}

/// `s` without the copies of `pattern` that it starts with.
pub fn trim_prefixes_chars(s: &Vec<char>, pattern: &Vec<char>) -> (rest: Vec<char>)
    ensures
        rest@ == trim_prefixes(s@, pattern@),
{
    let length: usize = s.len();
    let mut at: usize = 0;
    assert(s@.skip(0) =~= s@);
    while pattern.len() > 0 && stands_at(s, pattern, at)
        invariant
            length == s@.len(),
            at <= length,
            trim_prefixes(s@, pattern@) == trim_prefixes(s@.skip(at as int), pattern@),
        decreases s@.len() - at,
    {
        proof {
            lemma_occurs_at_skip(s@, pattern@, at as int, 0);
        }
        assert(s@.skip(at as int).skip(pattern@.len() as int) =~= s@.skip(at + pattern@.len()));
        at = at + pattern.len();
    }
    proof {
        lemma_occurs_at_skip(s@, pattern@, at as int, 0);
    }
    assert(s@.subrange(at as int, s@.len() as int) =~= s@.skip(at as int));
    part(s, at, s.len())
}

/// What stands in the rest of a text stands in the text, further on.
pub proof fn lemma_occurs_at_skip(s: Seq<char>, pattern: Seq<char>, skipped: int, at: int)
    requires
        0 <= skipped <= s.len(),
        0 <= at,
    ensures
        occurs_at(s.skip(skipped), pattern, at) == occurs_at(s, pattern, skipped + at),
{
    if skipped + at + pattern.len() <= s.len() {
        assert(s.skip(skipped).subrange(at, at + pattern.len()) =~= s.subrange(
            skipped + at,
            skipped + at + pattern.len(),
        ));
    }
}

/// `s` with every occurrence of `pattern`, found from the left without overlap,
/// replaced by `to`.
pub open spec fn replace_all(s: Seq<char>, pattern: Seq<char>, to: Seq<char>) -> Seq<char>
    decreases s.len(),
{
    if pattern.len() == 0 || s.len() == 0 {
        s
    } else if starts_with(s, pattern) {
        to + replace_all(s.skip(pattern.len() as int), pattern, to)
    } else {
        seq![s[0]] + replace_all(s.skip(1), pattern, to)
    }
}

/// `s` with every occurrence of `pattern` replaced by `to`.
pub fn replace_chars(s: &Vec<char>, pattern: &Vec<char>, to: &Vec<char>) -> (out: Vec<char>)
    requires
        pattern@.len() > 0,
    ensures
        out@ == replace_all(s@, pattern@, to@),
{
    let mut out: Vec<char> = Vec::new();
    let mut at: usize = 0;
    assert(s@.skip(0) =~= s@);
    while at < s.len()
        invariant
            at <= s@.len(),
            pattern@.len() > 0,
            replace_all(s@, pattern@, to@) == out@ + replace_all(
                s@.skip(at as int),
                pattern@,
                to@,
            ),
        decreases s@.len() - at,
    {
        let ghost rest = s@.skip(at as int);
        let ghost done = out@;
        proof {
            lemma_occurs_at_skip(s@, pattern@, at as int, 0);
        }
        if stands_at(s, pattern, at) {
            assert(rest.skip(pattern@.len() as int) =~= s@.skip(at + pattern@.len()));
            for i in 0..to.len()
                invariant
                    out@ == done + to@.take(i as int),
            {
                out.push(to[i]);
                assert(out@ =~= done + to@.take(i + 1));
            }
            assert(to@.take(to@.len() as int) =~= to@);
            at = at + pattern.len();
            assert(done + (to@ + replace_all(s@.skip(at as int), pattern@, to@)) =~= out@
                + replace_all(s@.skip(at as int), pattern@, to@));
        } else {
            assert(rest.skip(1) =~= s@.skip(at + 1));
            out.push(s[at]);
            at = at + 1;
            assert(done + (seq![rest[0]] + replace_all(s@.skip(at as int), pattern@, to@)) =~= out@
                + replace_all(s@.skip(at as int), pattern@, to@));
        }
    }
    assert(out@ + s@.skip(at as int) =~= out@);
    out
}

/// A line without the carriage return before its line feed.
pub open spec fn drop_return(line: Seq<char>) -> Seq<char> {
    if line.len() > 0 && line.last() == '\r' {
        line.drop_last()
    } else {
        line
    }
}

/// The lines of `s`. A line ends with a line feed, which may have a carriage
/// return before it; the last one may also end with the text.
pub open spec fn lines(s: Seq<char>) -> Seq<Seq<char>>
    decreases s.len(),
{
    let n = position(s, CharClass::LineFeed);
    if s.len() == 0 {
        Seq::empty()
    } else if n >= s.len() {
        seq![s]
    } else {
        seq![drop_return(s.take(n as int))] + lines(s.skip(n as int + 1))
    }
}

/// The texts that some vectors of characters hold.
pub open spec fn texts(vectors: Seq<Vec<char>>) -> Seq<Seq<char>> {
    vectors.map_values(|v: Vec<char>| v@)
}

/// The texts that some strings hold.
pub open spec fn strings(list: Seq<String>) -> Seq<Seq<char>> {
    list.map_values(|s: String| s@)
}

/// The lines of `s`.
pub fn lines_of(s: &Vec<char>) -> (found: Vec<Vec<char>>)
    ensures
        texts(found@) == lines(s@),
{
    let mut found: Vec<Vec<char>> = Vec::new();
    let mut at: usize = 0;
    assert(s@.skip(0) =~= s@);
    assert(texts(found@) + lines(s@) =~= lines(s@));
    while at < s.len()
        invariant
            at <= s@.len(),
            lines(s@) == texts(found@) + lines(s@.skip(at as int)),
        decreases s@.len() - at,
    {
        let ghost rest = s@.skip(at as int);
        let ghost done = texts(found@);
        let end = find_class(s, at, CharClass::LineFeed);
        if end == s.len() {
            let line = part(s, at, end);
            assert(line@ =~= rest);
            found.push(line);
            assert(texts(found@) =~= done.push(rest));
            assert(done + seq![rest] =~= texts(found@));
            return found;
        }
        let mut stop: usize = end;
        if end > at && s[end - 1] == '\r' {
            stop = end - 1;
        }
        let line = part(s, at, stop);
        let ghost raw = rest.take(end - at);
        assert(line@ =~= drop_return(raw)) by {
            if end > at {
                assert(raw.last() == s@[end - 1]);
            }
        }
        found.push(line);
        assert(texts(found@) =~= done.push(line@));
        assert(rest.skip(end - at + 1) =~= s@.skip(end + 1));
        assert(done + (seq![line@] + lines(s@.skip(end + 1))) =~= texts(found@) + lines(
            s@.skip(end + 1),
        ));
        at = end + 1;
    }
    assert(texts(found@) + lines(s@.skip(at as int)) =~= texts(found@));
    found
}

/// The texts of `parts` one after the other, with `separator` between any two.
pub open spec fn joined(parts: Seq<Seq<char>>, separator: Seq<char>) -> Seq<char>
    decreases parts.len(),
{
    if parts.len() == 0 {
        Seq::empty()
    } else if parts.len() == 1 {
        parts[0]
    } else {
        joined(parts.drop_last(), separator) + separator + parts.last()
    }
}

/// The texts of `parts` one after the other, with `separator` between any two.
pub fn join(parts: &Vec<String>, separator: &str) -> (whole: String)
    ensures
        whole@ == joined(strings(parts@), separator@),
{
    let mut whole = String::new();
    for i in 0..parts.len()
        invariant
            whole@ == joined(strings(parts@).take(i as int), separator@),
    {
        let ghost longer = strings(parts@).take(i + 1);
        assert(longer.drop_last() =~= strings(parts@).take(i as int));
        assert(longer.last() == parts@[i as int]@);
        if i > 0 {
            whole.append(separator);
        }
        whole.append(parts[i].as_str());
        if i == 0 {
            assert(whole@ =~= longer[0]);
        }
    }
    assert(strings(parts@).take(parts@.len() as int) =~= strings(parts@));
    whole
}

/// Two texts, one after the other.
pub fn concat2(a: &str, b: &str) -> (whole: String)
    ensures
        whole@ == a@ + b@,
{
    let mut whole = a.to_owned();
    whole.append(b);
    whole
}

/// Three texts, one after the other.
pub fn concat3(a: &str, b: &str, c: &str) -> (whole: String)
    ensures
        whole@ == a@ + b@ + c@,
{
    let mut whole = concat2(a, b);
    whole.append(c);
    whole
}

/// A text without the pattern stays as it is when the pattern is replaced.
pub proof fn lemma_replace_absent(s: Seq<char>, pattern: Seq<char>, to: Seq<char>)
    requires
        !occurs(s, pattern),
    ensures
        replace_all(s, pattern, to) == s,
    decreases s.len(),
{
    if pattern.len() > 0 && s.len() > 0 {
        assert(!occurs_at(s, pattern, 0));
        if occurs(s.skip(1), pattern) {
            let at = choose|at: int| occurs_at(s.skip(1), pattern, at);
            lemma_occurs_at_skip(s, pattern, 1, at);
            assert(occurs_at(s, pattern, 1 + at));
        }
        lemma_replace_absent(s.skip(1), pattern, to);
        assert(seq![s[0]] + s.skip(1) =~= s);
    }
}

} // verus!
