//! Text seen as a sequence of characters: trimming, searching and cutting.

use vstd::prelude::*;

verus! {

/// The characters with the Unicode `White_Space` property.
pub open spec fn white_space(c: char) -> bool {
    ||| '\u{9}' <= c && c <= '\u{d}'
    ||| c == '\u{20}'
    ||| c == '\u{85}'
    ||| c == '\u{a0}'
    ||| c == '\u{1680}'
    ||| '\u{2000}' <= c && c <= '\u{200a}'
    ||| c == '\u{2028}'
    ||| c == '\u{2029}'
    ||| c == '\u{202f}'
    ||| c == '\u{205f}'
    ||| c == '\u{3000}'
}

/// Whether a character is white space.
pub fn is_white_space(c: char) -> (yes: bool)
    ensures
        yes == white_space(c),
{
    ('\u{9}' <= c && c <= '\u{d}') || c == '\u{20}' || c == '\u{85}' || c == '\u{a0}' || c
        == '\u{1680}' || ('\u{2000}' <= c && c <= '\u{200a}') || c == '\u{2028}' || c == '\u{2029}'
        || c == '\u{202f}' || c == '\u{205f}' || c == '\u{3000}'
}

/// The characters of a string slice.
pub fn chars_of(text: &str) -> (chars: Vec<char>)
    ensures
        chars@ == text@,
{
    let mut chars: Vec<char> = Vec::new();
    for c in iter: text.chars()
        invariant
            chars@ == text@.take(iter.index() as int),
            iter.seq() == text@,
    {
        chars.push(c);
        assert(chars@ == text@.take(iter.index() + 1));
    }
    assert(text@.take(text@.len() as int) == text@);
    chars
}

/// The text without its leading white space.
pub open spec fn trim_start(s: Seq<char>) -> Seq<char>
    decreases s.len(),
{
    if s.len() > 0 && white_space(s[0]) {
        trim_start(s.skip(1))
    } else {
        s
    }
}

/// The text without its trailing white space.
pub open spec fn trim_end(s: Seq<char>) -> Seq<char>
    decreases s.len(),
{
    if s.len() > 0 && white_space(s.last()) {
        trim_end(s.drop_last())
    } else {
        s
    }
}

/// The text without white space on either side.
pub open spec fn trimmed(s: Seq<char>) -> Seq<char> {
    trim_end(trim_start(s))
}

/// Cuts the white space off both ends of a text.
pub fn trim<'a>(text: &'a str) -> (inner: &'a str)
    ensures
        inner@ == trimmed(text@),
{
    let chars = chars_of(text);
    let n: usize = chars.len();
    let mut start: usize = 0;
    assert(text@.skip(0) == text@);
    while start < n && is_white_space(chars[start])
        invariant
            start <= n,
            n == text@.len(),
            chars@ == text@,
            trim_start(text@) == trim_start(text@.skip(start as int)),
        decreases n - start,
    {
        assert(text@.skip(start as int).skip(1) == text@.skip(start + 1));
        start = start + 1;
    }
    let ghost rest = text@.skip(start as int);
    assert(trim_start(text@) == rest);
    let mut end: usize = n;
    assert(rest.take(n - start) == rest);
    while end > start && is_white_space(chars[end - 1])
        invariant
            start <= end <= n,
            n == text@.len(),
            chars@ == text@,
            rest == text@.skip(start as int),
            trim_end(rest) == trim_end(rest.take(end - start)),
        decreases end,
    {
        assert(rest.take(end - start).last() == text@[end - 1]);
        assert(rest.take(end - start).drop_last() == rest.take(end - start - 1));
        end = end - 1;
    }
    assert(end > start ==> rest.take(end - start).last() == text@[end - 1]);
    assert(rest.take(end - start) == text@.subrange(start as int, end as int));
    text.substring_char(start, end)
}

/// What is cut from the front is white space, and what is left does not start with any.
pub proof fn trim_start_is_suffix(s: Seq<char>) -> (a: int)
    ensures
        0 <= a <= s.len(),
        trim_start(s) == s.skip(a),
        forall|i: int| 0 <= i < a ==> white_space(#[trigger] s[i]),
        a < s.len() ==> !white_space(s[a]),
    decreases s.len(),
{
    if s.len() > 0 && white_space(s[0]) {
        let b = trim_start_is_suffix(s.skip(1));
        assert(s.skip(1).skip(b) == s.skip(b + 1));
        assert forall|i: int| 0 <= i < b + 1 implies white_space(#[trigger] s[i]) by {
            if i > 0 {
                assert(s.skip(1)[i - 1] == s[i]);
            }
        }
        b + 1
    } else {
        assert(s.skip(0) == s);
        0
    }
}

/// What is cut from the back is white space, and what is left does not end with any.
pub proof fn trim_end_is_prefix(s: Seq<char>) -> (n: int)
    ensures
        0 <= n <= s.len(),
        trim_end(s) == s.take(n),
        forall|i: int| n <= i < s.len() ==> white_space(#[trigger] s[i]),
        n > 0 ==> !white_space(s[n - 1]),
    decreases s.len(),
{
    if s.len() > 0 && white_space(s.last()) {
        let n = trim_end_is_prefix(s.drop_last());
        assert(s.drop_last().take(n) == s.take(n));
        assert forall|i: int| n <= i < s.len() implies white_space(#[trigger] s[i]) by {
            if i < s.len() - 1 {
                assert(s.drop_last()[i] == s[i]);
            }
        }
        n
    } else {
        assert(s.take(s.len() as int) == s);
        s.len() as int
    }
}

/// A trimmed text has no white space at either end, so trimming it again changes nothing.
pub proof fn trim_is_idempotent(s: Seq<char>)
    ensures
        trimmed(trimmed(s)) == trimmed(s),
        trimmed(s).len() > 0 ==> !white_space(trimmed(s)[0]) && !white_space(trimmed(s).last()),
{
    let a = trim_start_is_suffix(s);
    let rest = s.skip(a);
    let n = trim_end_is_prefix(rest);
    if n > 0 {
        assert(rest.take(n)[0] == s[a]);
        assert(rest.take(n).last() == rest[n - 1]);
    }
}

/// What stands between white space on either side, and has none at its own ends, is the trimmed
/// text.
pub proof fn trimmed_is_what_white_space_surrounds(s: Seq<char>, a: int, b: int)
    requires
        0 <= a <= b <= s.len(),
        forall|i: int| 0 <= i < a ==> white_space(#[trigger] s[i]),
        forall|i: int| b <= i < s.len() ==> white_space(#[trigger] s[i]),
        a < b ==> !white_space(s[a]) && !white_space(s[b - 1]),
    ensures
        trimmed(s) == s.subrange(a, b),
{
    let start = trim_start_is_suffix(s);
    let rest = s.skip(start);
    let n = trim_end_is_prefix(rest);
    if n > 0 {
        assert(rest[n - 1] == s[start + n - 1]);
    }
    if a < b {
        assert(start == a);
        assert(rest[b - a - 1] == s[b - 1]);
        assert(n == b - a) by {
            if n < b - a {
                assert(white_space(rest[b - a - 1]));
            } else if n > b - a {
                assert(white_space(s[a + n - 1]));
            }
        }
        assert(rest.take(n) =~= s.subrange(a, b));
    } else {
        assert(n == 0) by {
            if n > 0 {
                let i = start + n - 1;
                assert(i < a || i >= b);
            }
        }
        assert(rest.take(0) =~= s.subrange(a, b));
    }
}

/// The first position at or after `from` whose character satisfies `p`; the length of the text
/// where there is none.
pub open spec fn first_where(s: Seq<char>, p: spec_fn(char) -> bool, from: int) -> int
    decreases s.len() - from,
{
    if from >= s.len() || p(s[from]) {
        if from >= s.len() {
            s.len() as int
        } else {
            from
        }
    } else {
        first_where(s, p, from + 1)
    }
}

/// Being the character `c`.
pub open spec fn is_char(c: char) -> spec_fn(char) -> bool {
    |d: char| d == c
}

/// Being white space.
pub open spec fn is_space() -> spec_fn(char) -> bool {
    |d: char| white_space(d)
}

/// The first position at or after `from` of the character `c`; the length of the text where
/// there is none.
pub open spec fn first_char(s: Seq<char>, c: char, from: int) -> int {
    first_where(s, is_char(c), from)
}

/// The first position at or after `from` of white space; the length of the text where there is
/// none.
pub open spec fn first_space(s: Seq<char>, from: int) -> int {
    first_where(s, is_space(), from)
}

/// `first_where` finds the first such position.
pub proof fn first_where_is_first(s: Seq<char>, p: spec_fn(char) -> bool, from: int)
    requires
        0 <= from <= s.len(),
    ensures
        from <= first_where(s, p, from) <= s.len(),
        first_where(s, p, from) < s.len() ==> p(s[first_where(s, p, from)]),
        forall|i: int| from <= i < first_where(s, p, from) ==> !p(#[trigger] s[i]),
    decreases s.len() - from,
{
    if from < s.len() && !p(s[from]) {
        first_where_is_first(s, p, from + 1);
    }
}

/// `first_char` finds the first such position.
pub proof fn first_char_is_first(s: Seq<char>, c: char, from: int)
    requires
        0 <= from <= s.len(),
    ensures
        from <= first_char(s, c, from) <= s.len(),
        first_char(s, c, from) < s.len() ==> s[first_char(s, c, from)] == c,
        forall|i: int| from <= i < first_char(s, c, from) ==> #[trigger] s[i] != c,
{
    first_where_is_first(s, is_char(c), from);
    assert(forall|i: int| from <= i < first_char(s, c, from) ==> !is_char(c)(#[trigger] s[i]));
}

/// `first_space` finds the first such position.
pub proof fn first_space_is_first(s: Seq<char>, from: int)
    requires
        0 <= from <= s.len(),
    ensures
        from <= first_space(s, from) <= s.len(),
        first_space(s, from) < s.len() ==> white_space(s[first_space(s, from)]),
        forall|i: int| from <= i < first_space(s, from) ==> !white_space(#[trigger] s[i]),
{
    first_where_is_first(s, is_space(), from);
    assert(forall|i: int| from <= i < first_space(s, from) ==> !is_space()(#[trigger] s[i]));
}

/// Finds a character from a position on.
pub fn find_char(chars: &Vec<char>, c: char, from: usize) -> (at: usize)
    requires
        from <= chars@.len(),
    ensures
        at == first_char(chars@, c, from as int),
        from <= at <= chars@.len(),
        at < chars@.len() ==> chars@[at as int] == c,
{
    let mut i: usize = from;
    while i < chars.len() && chars[i] != c
        invariant
            from <= i <= chars@.len(),
            first_char(chars@, c, from as int) == first_char(chars@, c, i as int),
        decreases chars@.len() - i,
    {
        i = i + 1;
    }
    i
}

/// Finds white space from a position on.
pub fn find_space(chars: &Vec<char>, from: usize) -> (at: usize)
    requires
        from <= chars@.len(),
    ensures
        at == first_space(chars@, from as int),
        from <= at <= chars@.len(),
        at < chars@.len() ==> white_space(chars@[at as int]),
{
    let mut i: usize = from;
    while i < chars.len() && !is_white_space(chars[i])
        invariant
            from <= i <= chars@.len(),
            first_space(chars@, from as int) == first_space(chars@, i as int),
        decreases chars@.len() - i,
    {
        i = i + 1;
    }
    i
}

/// How far the last `c` among the first `n` characters reaches; 0 where there is none.
pub open spec fn after_last(s: Seq<char>, c: char, n: int) -> int
    decreases n,
{
    if n <= 0 {
        0
    } else if s[n - 1] == c {
        n
    } else {
        after_last(s, c, n - 1)
    }
}

/// `after_last` is where the last such character ends.
pub proof fn after_last_is_last(s: Seq<char>, c: char, n: int)
    requires
        0 <= n <= s.len(),
    ensures
        0 <= after_last(s, c, n) <= n,
        after_last(s, c, n) > 0 ==> s[after_last(s, c, n) - 1] == c,
        forall|i: int| after_last(s, c, n) <= i < n ==> #[trigger] s[i] != c,
    decreases n,
{
    if n > 0 && s[n - 1] != c {
        after_last_is_last(s, c, n - 1);
    }
}

/// Finds where the last of a character ends.
pub fn find_after_last(chars: &Vec<char>, c: char, n: usize) -> (end: usize)
    requires
        n <= chars@.len(),
    ensures
        end == after_last(chars@, c, n as int),
        end <= n,
{
    let mut i: usize = n;
    while i > 0 && chars[i - 1] != c
        invariant
            i <= n <= chars@.len(),
            after_last(chars@, c, n as int) == after_last(chars@, c, i as int),
        decreases i,
    {
        i = i - 1;
    }
    i
}

/// Whether `pat` stands in `s` at position `at`.
pub open spec fn occurs_at(s: Seq<char>, pat: Seq<char>, at: int) -> bool {
    &&& 0 <= at
    &&& at + pat.len() <= s.len()
    &&& s.subrange(at, at + pat.len()) == pat
}

/// Whether `pat` stands in `s` somewhere.
pub open spec fn contains(s: Seq<char>, pat: Seq<char>) -> bool {
    exists|at: int| occurs_at(s, pat, at)
}

/// The first position at or after `from` at which `pat` stands in `s`.
pub open spec fn first_match(s: Seq<char>, pat: Seq<char>, from: int) -> Option<int>
    decreases s.len() - from + 1,
{
    if from + pat.len() > s.len() {
        None
    } else if occurs_at(s, pat, from) {
        Some(from)
    } else {
        first_match(s, pat, from + 1)
    }
}

/// `first_match` finds the first such position, if there is one.
pub proof fn first_match_is_first(s: Seq<char>, pat: Seq<char>, from: int)
    requires
        0 <= from,
    ensures
        first_match(s, pat, from) matches Some(at) ==> from <= at && occurs_at(s, pat, at) && (
        forall|i: int| from <= i < at ==> !#[trigger] occurs_at(s, pat, i)),
        first_match(s, pat, from) is None ==> forall|i: int|
            from <= i ==> !#[trigger] occurs_at(s, pat, i),
    decreases s.len() - from + 1,
{
    if from + pat.len() <= s.len() && !occurs_at(s, pat, from) {
        first_match_is_first(s, pat, from + 1);
    }
}

/// A search from a position on is a search of the rest of the text.
pub proof fn first_match_in_rest(s: Seq<char>, pat: Seq<char>, start: int, from: int)
    requires
        0 <= start <= s.len(),
        0 <= from,
    ensures
        first_match(s, pat, start + from) == (match first_match(s.skip(start), pat, from) {
            Some(at) => Some(start + at),
            None => None,
        }),
    decreases s.len() - from + 1,
{
    let rest = s.skip(start);
    if start + from + pat.len() <= s.len() {
        assert(s.subrange(start + from, start + from + pat.len()) =~= rest.subrange(
            from,
            from + pat.len(),
        ));
        first_match_in_rest(s, pat, start, from + 1);
    }
}

/// A text contains a pattern exactly where the search from its start finds it.
pub proof fn contains_iff_match(s: Seq<char>, pat: Seq<char>)
    ensures
        contains(s, pat) <==> first_match(s, pat, 0) is Some,
{
    first_match_is_first(s, pat, 0);
}

/// Whether `pat` stands in the text at a position.
pub fn stands_at(chars: &Vec<char>, pat: &Vec<char>, at: usize) -> (yes: bool)
    ensures
        yes == occurs_at(chars@, pat@, at as int),
{
    if pat.len() > chars.len() || at > chars.len() - pat.len() {
        return false;
    }
    let n: usize = chars.len();
    let mut i: usize = 0;
    while i < pat.len()
        invariant
            i <= pat@.len(),
            at + pat@.len() <= n,
            n == chars@.len(),
            forall|j: int| 0 <= j < i ==> chars@[at + j] == #[trigger] pat@[j],
        decreases pat@.len() - i,
    {
        if chars[at + i] != pat[i] {
            assert(chars@.subrange(at as int, at + pat@.len())[i as int] != pat@[i as int]);
            return false;
        }
        i = i + 1;
    }
    assert(chars@.subrange(at as int, at + pat@.len()) =~= pat@);
    true
}

/// Finds a pattern from a position on.
pub fn find(chars: &Vec<char>, pat: &Vec<char>, from: usize) -> (at: Option<usize>)
    requires
        from <= chars@.len(),
    ensures
        at matches Some(i) ==> first_match(chars@, pat@, from as int) == Some(i as int) && from <= i
            && i + pat@.len() <= chars@.len(),
        at is None ==> first_match(chars@, pat@, from as int) is None,
{
    let n: usize = chars.len();
    let mut i: usize = from;
    while pat.len() <= n && i <= n - pat.len()
        invariant
            from <= i <= n,
            n == chars@.len(),
            first_match(chars@, pat@, from as int) == first_match(chars@, pat@, i as int),
        decreases n - i,
    {
        if stands_at(chars, pat, i) {
            return Some(i);
        }
        assert(pat@.len() == 0 ==> chars@.subrange(i as int, i as int) =~= pat@);
        i = i + 1;
    }
    None
}

/// The last position at or before `to` at which `pat` stands in `s`.
pub open spec fn last_match(s: Seq<char>, pat: Seq<char>, to: int) -> Option<int>
    decreases to + 1,
{
    if to < 0 {
        None
    } else if occurs_at(s, pat, to) {
        Some(to)
    } else {
        last_match(s, pat, to - 1)
    }
}

/// `last_match` finds the last such position, if there is one.
pub proof fn last_match_is_last(s: Seq<char>, pat: Seq<char>, to: int)
    ensures
        last_match(s, pat, to) matches Some(at) ==> 0 <= at <= to && occurs_at(s, pat, at) && (
        forall|i: int| at < i <= to ==> !#[trigger] occurs_at(s, pat, i)),
        last_match(s, pat, to) is None ==> forall|i: int|
            i <= to ==> !#[trigger] occurs_at(s, pat, i),
    decreases to + 1,
{
    if to >= 0 && !occurs_at(s, pat, to) {
        last_match_is_last(s, pat, to - 1);
    }
}

/// Finds the last place of a pattern.
pub fn find_last(chars: &Vec<char>, pat: &Vec<char>) -> (at: Option<usize>)
    ensures
        at matches Some(i) ==> last_match(chars@, pat@, chars@.len() as int) == Some(i as int) && i
            + pat@.len() <= chars@.len(),
        at is None ==> last_match(chars@, pat@, chars@.len() as int) is None,
{
    let mut to: usize = chars.len();
    while to > 0
        invariant
            to <= chars@.len(),
            last_match(chars@, pat@, chars@.len() as int) == last_match(chars@, pat@, to as int),
        decreases to,
    {
        if stands_at(chars, pat, to) {
            return Some(to);
        }
        to = to - 1;
    }
    if stands_at(chars, pat, 0) {
        Some(0)
    } else {
        assert(last_match(chars@, pat@, -1) is None);
        None
    }
}

/// Whether two texts are the same.
pub fn same(a: &str, b: &str) -> (yes: bool)
    ensures
        yes == (a@ == b@),
{
    let left = chars_of(a);
    let right = chars_of(b);
    assert(a@.len() == b@.len() ==> a@.subrange(0, b@.len() as int) =~= a@);
    left.len() == right.len() && stands_at(&left, &right, 0)
}

/// An ASCII capital as the small letter; any other character as it is.
pub open spec fn ascii_lower(c: char) -> char {
    if 'A' <= c && c <= 'Z' {
        ((c as u8 + 32) as u8) as char
    } else {
        c
    }
}

/// The text with its ASCII capitals as small letters.
pub open spec fn ascii_lowered(s: Seq<char>) -> Seq<char> {
    s.map_values(|c: char| ascii_lower(c))
}

/// Turns an ASCII capital into the small letter.
pub fn lower_ascii_char(c: char) -> (lower: char)
    ensures
        lower == ascii_lower(c),
{
    if 'A' <= c && c <= 'Z' {
        ((c as u8) + 32) as char
    } else {
        c
    }
}

/// Whether two texts are the same but for the case of ASCII letters.
pub fn same_ignoring_ascii_case(a: &str, b: &str) -> (yes: bool)
    ensures
        yes == (ascii_lowered(a@) == ascii_lowered(b@)),
{
    let left = chars_of(a);
    let right = chars_of(b);
    if left.len() != right.len() {
        assert(ascii_lowered(a@).len() != ascii_lowered(b@).len());
        return false;
    }
    let mut i: usize = 0;
    while i < left.len()
        invariant
            i <= left@.len(),
            left@ == a@,
            right@ == b@,
            left@.len() == right@.len(),
            forall|j: int| 0 <= j < i ==> ascii_lower(#[trigger] a@[j]) == ascii_lower(b@[j]),
        decreases left@.len() - i,
    {
        if lower_ascii_char(left[i]) != lower_ascii_char(right[i]) {
            assert(ascii_lowered(a@)[i as int] != ascii_lowered(b@)[i as int]);
            return false;
        }
        i = i + 1;
    }
    assert(ascii_lowered(a@) =~= ascii_lowered(b@));
    true
}

/// Whether every character is an ASCII character.
pub open spec fn is_ascii_text(s: Seq<char>) -> bool {
    forall|i: int| 0 <= i < s.len() ==> (#[trigger] s[i] as u32) < 128
}

/// What `str::to_lowercase` makes of a text.
pub uninterp spec fn lowercase(s: Seq<char>) -> Seq<char>;

/// Calls `str::to_lowercase`. Its result is the Unicode lowercase of the text, here named
/// `lowercase`; of an ASCII text it is the text with its capitals as small letters. What it makes
/// of other characters is not stated.
#[verifier::external_body]
pub(crate) fn to_lowercase(text: &str) -> (lower: String)
    ensures
        lower@ == lowercase(text@),
        is_ascii_text(text@) ==> lower@ == ascii_lowered(text@),
{
    text.to_lowercase()
}

/// Whether a text consists of printable ASCII characters, without quotation marks and backslashes.
pub open spec fn is_plain_text(s: Seq<char>) -> bool {
    forall|i: int|
        0 <= i < s.len() ==> ' ' <= #[trigger] s[i] && s[i] <= '~' && s[i] != '"' && s[i] != '\\'
}

/// What the `Debug` format of a string slice makes of a text.
pub uninterp spec fn quoted(s: Seq<char>) -> Seq<char>;

/// Writes a text in the `Debug` format of string slices, with `format!`. The result is named
/// `quoted`; a plain text stands unchanged between quotation marks. How other characters are
/// escaped is not stated.
#[verifier::external_body]
pub(crate) fn quote(text: &str) -> (quote: String)
    ensures
        quote@ == quoted(text@),
        is_plain_text(text@) ==> quote@ == seq!['"'] + text@ + seq!['"'],
{
    format!("{text:?}")
}

/// Whether a text contains a pattern.
pub fn has(text: &str, pat: &str) -> (yes: bool)
    ensures
        yes == contains(text@, pat@),
{
    proof {
        contains_iff_match(text@, pat@);
    }
    find(&chars_of(text), &chars_of(pat), 0).is_some()
}

/// Whether `s` begins with `prefix`.
pub open spec fn begins_with(s: Seq<char>, prefix: Seq<char>) -> bool {
    occurs_at(s, prefix, 0)
}

/// The text after a prefix, where the text begins with it.
pub fn strip_prefix<'a>(text: &'a str, prefix: &str) -> (rest: Option<&'a str>)
    ensures
        rest is Some <==> begins_with(text@, prefix@),
        rest matches Some(r) ==> r@ == text@.skip(prefix@.len() as int) && text@ == prefix@ + r@,
{
    let chars = chars_of(text);
    let pat = chars_of(prefix);
    if stands_at(&chars, &pat, 0) {
        let rest = text.substring_char(pat.len(), chars.len());
        assert(text@.subrange(pat@.len() as int, text@.len() as int) == text@.skip(
            pat@.len() as int,
        ));
        assert(text@ == prefix@ + rest@);
        Some(rest)
    } else {
        None
    }
}

/// The text without the given character at its end, however often it stands there.
pub open spec fn without_trailing(s: Seq<char>, c: char) -> Seq<char>
    decreases s.len(),
{
    if s.len() > 0 && s.last() == c {
        without_trailing(s.drop_last(), c)
    } else {
        s
    }
}

/// Cuts a character off the end of a text, however often it stands there.
pub fn trim_end_char<'a>(text: &'a str, c: char) -> (front: &'a str)
    ensures
        front@ == without_trailing(text@, c),
{
    let chars = chars_of(text);
    let mut end: usize = chars.len();
    assert(text@.take(text@.len() as int) == text@);
    while end > 0 && chars[end - 1] == c
        invariant
            end <= chars@.len(),
            chars@ == text@,
            without_trailing(text@, c) == without_trailing(text@.take(end as int), c),
        decreases end,
    {
        assert(text@.take(end as int).last() == text@[end - 1]);
        assert(text@.take(end as int).drop_last() == text@.take(end - 1));
        end = end - 1;
    }
    assert(end > 0 ==> text@.take(end as int).last() == text@[end - 1]);
    assert(text@.take(end as int) == text@.subrange(0, end as int));
    text.substring_char(0, end)
}

/// What the strings of a sequence hold.
pub open spec fn texts(strings: Seq<String>) -> Seq<Seq<char>> {
    strings.map_values(|s: String| s@)
}

/// Tells whether a text is one of a list.
pub fn holds(list: &Vec<String>, text: &str) -> (yes: bool)
    ensures
        yes == texts(list@).contains(text@),
{
    let mut i: usize = 0;
    while i < list.len()
        invariant
            i <= list@.len(),
            forall|j: int| 0 <= j < i ==> #[trigger] texts(list@)[j] != text@,
        decreases list@.len() - i,
    {
        assert(texts(list@)[i as int] == list@[i as int]@);
        if same(list[i].as_str(), text) {
            return true;
        }
        i = i + 1;
    }
    false
}

/// What an optional string holds.
pub open spec fn maybe(string: Option<String>) -> Option<Seq<char>> {
    match string {
        Some(s) => Some(s@),
        None => None,
    }
}

/// Whether a text comes before another one in the order of their characters.
pub open spec fn comes_before(a: Seq<char>, b: Seq<char>) -> bool
    decreases a.len(),
{
    if b.len() == 0 {
        false
    } else if a.len() == 0 {
        true
    } else if a[0] != b[0] {
        a[0] < b[0]
    } else {
        comes_before(a.skip(1), b.skip(1))
    }
}

/// No text comes before itself, and of two different texts one comes before the other.
pub proof fn texts_are_ordered(a: Seq<char>, b: Seq<char>)
    ensures
        comes_before(a, b) ==> a != b && !comes_before(b, a),
        a != b ==> comes_before(a, b) || comes_before(b, a),
    decreases a.len(),
{
    if a.len() > 0 && b.len() > 0 && a[0] == b[0] {
        texts_are_ordered(a.skip(1), b.skip(1));
        if a.skip(1) == b.skip(1) {
            assert(a =~= seq![a[0]] + a.skip(1));
            assert(b =~= seq![b[0]] + b.skip(1));
        }
    } else if a.len() == 0 && b.len() == 0 {
        assert(a =~= b);
    }
}

/// What comes before a text comes before everything behind that text.
pub proof fn text_order_carries_over(a: Seq<char>, b: Seq<char>, c: Seq<char>)
    requires
        comes_before(a, b),
        comes_before(b, c),
    ensures
        comes_before(a, c),
    decreases a.len(),
{
    if a.len() > 0 && b.len() > 0 && c.len() > 0 && a[0] == b[0] && b[0] == c[0] {
        text_order_carries_over(a.skip(1), b.skip(1), c.skip(1));
    }
}

/// Tells whether a text comes before another one.
pub fn is_before(a: &str, b: &str) -> (yes: bool)
    ensures
        yes == comes_before(a@, b@),
{
    let left = chars_of(a);
    let right = chars_of(b);
    let mut i: usize = 0;
    assert(a@.skip(0) =~= a@);
    assert(b@.skip(0) =~= b@);
    while i < left.len() && i < right.len()
        invariant
            i <= left@.len(),
            i <= right@.len(),
            left@ == a@,
            right@ == b@,
            comes_before(a@, b@) == comes_before(a@.skip(i as int), b@.skip(i as int)),
        decreases left@.len() - i,
    {
        if left[i] != right[i] {
            return left[i] < right[i];
        }
        assert(a@.skip(i as int).skip(1) =~= a@.skip(i + 1));
        assert(b@.skip(i as int).skip(1) =~= b@.skip(i + 1));
        i = i + 1;
    }
    i < right.len()
}

/// The lines one after the other, with `sep` between two of them.
pub open spec fn joined(lines: Seq<Seq<char>>, sep: Seq<char>) -> Seq<char>
    decreases lines.len(),
{
    if lines.len() == 0 {
        Seq::empty()
    } else if lines.len() == 1 {
        lines[0]
    } else {
        joined(lines.drop_last(), sep) + sep + lines.last()
    }
}

/// Joins lines with a separator.
pub fn join(lines: &Vec<String>, sep: &str) -> (text: String)
    ensures
        text@ == joined(texts(lines@), sep@),
{
    let mut text = String::new();
    let mut i: usize = 0;
    assert(texts(lines@).take(0) =~= Seq::empty());
    while i < lines.len()
        invariant
            i <= lines@.len(),
            text@ == joined(texts(lines@).take(i as int), sep@),
        decreases lines@.len() - i,
    {
        let ghost before = texts(lines@).take(i as int);
        let ghost after = texts(lines@).take(i + 1);
        assert(after.drop_last() =~= before);
        assert(after.last() == lines@[i as int]@);
        if i > 0 {
            text.append(sep);
        } else {
            assert(text@ + lines@[0]@ =~= lines@[0]@);
        }
        text.append(lines[i].as_str());
        i = i + 1;
    }
    assert(texts(lines@).take(lines@.len() as int) =~= texts(lines@));
    text
}

/// White space is these characters and no others.
pub proof fn white_space_is_these_characters(c: char)
    ensures
        white_space(c) <==> seq![
            '\t',
            '\n',
            '\u{b}',
            '\u{c}',
            '\r',
            ' ',
            '\u{85}',
            '\u{a0}',
            '\u{1680}',
            '\u{2000}',
            '\u{2001}',
            '\u{2002}',
            '\u{2003}',
            '\u{2004}',
            '\u{2005}',
            '\u{2006}',
            '\u{2007}',
            '\u{2008}',
            '\u{2009}',
            '\u{200a}',
            '\u{2028}',
            '\u{2029}',
            '\u{202f}',
            '\u{205f}',
            '\u{3000}',
        ].contains(c),
{
    let all = seq![
        '\t',
        '\n',
        '\u{b}',
        '\u{c}',
        '\r',
        ' ',
        '\u{85}',
        '\u{a0}',
        '\u{1680}',
        '\u{2000}',
        '\u{2001}',
        '\u{2002}',
        '\u{2003}',
        '\u{2004}',
        '\u{2005}',
        '\u{2006}',
        '\u{2007}',
        '\u{2008}',
        '\u{2009}',
        '\u{200a}',
        '\u{2028}',
        '\u{2029}',
        '\u{202f}',
        '\u{205f}',
        '\u{3000}',
    ];
    assert(all.len() == 25);
    if white_space(c) {
        assert(all[0] == c || all[1] == c || all[2] == c || all[3] == c || all[4] == c || all[5]
            == c || all[6] == c || all[7] == c || all[8] == c || all[9] == c || all[10] == c
            || all[11] == c || all[12] == c || all[13] == c || all[14] == c || all[15] == c
            || all[16] == c || all[17] == c || all[18] == c || all[19] == c || all[20] == c
            || all[21] == c || all[22] == c || all[23] == c || all[24] == c);
    }
}

/// An ASCII capital becomes the small letter thirty-two places on; every other character stays. So
/// texts are the same but for the case of ASCII letters exactly where their characters are.
pub proof fn only_ascii_capitals_change(c: char, a: Seq<char>, b: Seq<char>)
    ensures
        'A' <= c && c <= 'Z' ==> ascii_lower(c) as u32 == c as u32 + 32,
        !('A' <= c && c <= 'Z') ==> ascii_lower(c) == c,
        ascii_lowered(a).len() == a.len(),
        ascii_lowered(a) == ascii_lowered(b) <==> a.len() == b.len() && forall|i: int|
            0 <= i < a.len() ==> ascii_lower(#[trigger] a[i]) == ascii_lower(b[i]),
{
    let x = ascii_lowered(a);
    let y = ascii_lowered(b);
    if x == y {
        assert forall|i: int| 0 <= i < a.len() implies ascii_lower(#[trigger] a[i]) == ascii_lower(
            b[i],
        ) by {
            assert(x[i] == y[i]);
        }
    }
    if a.len() == b.len() && (forall|i: int|
        0 <= i < a.len() ==> ascii_lower(#[trigger] a[i]) == ascii_lower(b[i])) {
        assert(x =~= y);
    }
}

/// A text is trimmed to what stands between the white space at its ends: white space goes from both,
/// and nothing else goes.
pub proof fn trimming_takes_white_space_only(s: Seq<char>) -> (bounds: (int, int))
    ensures
        0 <= bounds.0 <= bounds.1 <= s.len(),
        trimmed(s) == s.subrange(bounds.0, bounds.1),
        forall|i: int| 0 <= i < bounds.0 || bounds.1 <= i < s.len() ==> white_space(#[trigger] s[i]),
{
    let a = trim_start_is_suffix(s);
    let left = s.skip(a);
    let n = trim_end_is_prefix(left);
    assert(trimmed(s) =~= s.subrange(a, a + n));
    assert forall|i: int| 0 <= i < a || a + n <= i < s.len() implies white_space(#[trigger] s[i]) by {
        if i >= a + n {
            assert(left[i - a] == s[i]);
        }
    }
    (a, a + n)
}

/// The order of texts is the order of their characters: the first one that differs decides, and a
/// text comes before every longer one that begins with it.
pub proof fn the_first_difference_decides(
    front: Seq<char>,
    a: char,
    b: char,
    rest_a: Seq<char>,
    rest_b: Seq<char>,
)
    ensures
        a < b ==> comes_before(front.push(a) + rest_a, front.push(b) + rest_b),
        comes_before(front, front.push(a) + rest_a),
        !comes_before(front, front),
    decreases front.len(),
{
    let x = front.push(a) + rest_a;
    let y = front.push(b) + rest_b;
    if front.len() > 0 {
        let tail = front.skip(1);
        assert(x.skip(1) =~= tail.push(a) + rest_a);
        assert(y.skip(1) =~= tail.push(b) + rest_b);
        the_first_difference_decides(tail, a, b, rest_a, rest_b);
    }
}

/// One line is itself, and two groups of lines are joined by the separator between them.
pub proof fn lines_are_joined_by_the_separator(
    first: Seq<Seq<char>>,
    second: Seq<Seq<char>>,
    sep: Seq<char>,
    line: Seq<char>,
)
    ensures
        joined(Seq::empty(), sep) == Seq::<char>::empty(),
        joined(seq![line], sep) == line,
        first.len() > 0 && second.len() > 0 ==> joined(first + second, sep) == joined(first, sep)
            + sep + joined(second, sep),
    decreases second.len(),
{
    if first.len() > 0 && second.len() > 0 {
        assert((first + second).drop_last() =~= first + second.drop_last());
        if second.len() == 1 {
            assert(first + second.drop_last() =~= first);
        } else {
            lines_are_joined_by_the_separator(first, second.drop_last(), sep, line);
        }
        assert(joined(first + second, sep) =~= joined(first, sep) + sep + joined(second, sep));
    }
}

/// Only the given character goes from the end of a text, and all of it.
pub proof fn only_that_character_is_cut_off(s: Seq<char>, c: char)
    ensures
        without_trailing(s.push(c), c) == without_trailing(s, c),
        s.len() > 0 && s.last() != c ==> without_trailing(s, c) == s,
        s.len() == 0 ==> without_trailing(s, c) == s,
{
    assert(s.push(c).drop_last() =~= s);
}

/// A pattern occurs in a text where it stands between what comes before and what comes behind.
pub proof fn a_pattern_occurs_where_it_stands(
    before: Seq<char>,
    pat: Seq<char>,
    behind: Seq<char>,
    s: Seq<char>,
    at: int,
)
    ensures
        occurs_at(before + pat + behind, pat, before.len() as int),
        contains(before + pat + behind, pat),
        begins_with(pat + behind, pat),
        occurs_at(s, pat, at) ==> 0 <= at && s == s.take(at) + pat + s.skip(at + pat.len()),
        begins_with(s, pat) ==> s == pat + s.skip(pat.len() as int),
        contains(s, pat) ==> exists|i: int| #[trigger] occurs_at(s, pat, i),
{
    let whole = before + pat + behind;
    let n = before.len() as int;
    assert(whole.subrange(n, n + pat.len()) =~= pat);
    assert(occurs_at(whole, pat, n));
    assert((pat + behind).subrange(0, pat.len() as int) =~= pat);
    if occurs_at(s, pat, at) {
        assert(s =~= s.take(at) + s.subrange(at, at + pat.len()) + s.skip(at + pat.len()));
    }
    if begins_with(s, pat) {
        assert(s =~= s.subrange(0, pat.len() as int) + s.skip(pat.len() as int));
    }
}

} // verus!
