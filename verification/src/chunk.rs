//! Boundary-aware text chunking shared by channels.
//!
//! Splits a reply into pieces no longer than a channel's limit, preferring to break at a newline
//! so paragraphs, list items, and code fences are not cut mid-line when a clean break fits.

use crate::text::{after_last, after_last_is_last, chars_of, texts};
use vstd::prelude::*;

verus! {

/// A measure that gives every character one width, however often it is asked.
pub open spec fn is_measure<F: Fn(char) -> usize>(measure: F) -> bool {
    &&& forall|c: char| call_requires(measure, (c,))
    &&& forall|c: char, m: usize, n: usize|
        #![trigger call_ensures(measure, (c,), m), call_ensures(measure, (c,), n)]
        call_ensures(measure, (c,), m) && call_ensures(measure, (c,), n) ==> m == n
}

/// The widths that a measure gives.
pub open spec fn widths<F: Fn(char) -> usize>(measure: F) -> spec_fn(char) -> nat {
    |c: char| (choose|n: usize| call_ensures(measure, (c,), n)) as nat
}

/// Whether a measure gives a character a width.
pub open spec fn has_width<F: Fn(char) -> usize>(measure: F, c: char) -> bool {
    exists|n: usize| call_ensures(measure, (c,), n)
}

/// Whether these are the widths that a measure gives.
pub open spec fn gives<F: Fn(char) -> usize>(measure: F, width: spec_fn(char) -> nat) -> bool {
    forall|c: char, n: usize| #[trigger] call_ensures(measure, (c,), n) ==> n == width(c)
}

/// The width of a text: the sum over its characters.
pub open spec fn total(width: spec_fn(char) -> nat, s: Seq<char>) -> nat
    decreases s.len(),
{
    if s.len() == 0 {
        0
    } else {
        total(width, s.drop_last()) + width(s.last())
    }
}

/// The most characters that fit within the limit from the start of `s`, where `n` fit already.
pub open spec fn longest_fit(
    width: spec_fn(char) -> nat,
    limit: nat,
    s: Seq<char>,
    n: int,
) -> int
    decreases s.len() - n,
{
    if n < s.len() && total(width, s.take(n + 1)) <= limit {
        longest_fit(width, limit, s, n + 1)
    } else {
        n
    }
}

/// The length of the first chunk of a text. It is everything where everything fits; else as much
/// as fits, cut back to the last newline if there is one. One character is always taken.
pub open spec fn first_cut(width: spec_fn(char) -> nat, limit: nat, s: Seq<char>) -> int {
    let fit = longest_fit(width, limit, s, 1);
    if fit >= s.len() {
        s.len() as int
    } else if after_last(s, '\n', fit) > 0 {
        after_last(s, '\n', fit)
    } else {
        fit
    }
}

/// The chunks of a text.
pub open spec fn chunks_of(width: spec_fn(char) -> nat, limit: nat, s: Seq<char>) -> Seq<Seq<char>>
    decreases s.len(),
{
    if s.len() == 0 {
        Seq::empty()
    } else {
        let cut = first_cut(width, limit, s);
        if 0 < cut <= s.len() {
            seq![s.take(cut)] + chunks_of(width, limit, s.skip(cut))
        } else {
            Seq::empty()
        }
    }
}

/// The chunks one after the other.
pub open spec fn concatenated(chunks: Seq<Seq<char>>) -> Seq<char>
    decreases chunks.len(),
{
    if chunks.len() == 0 {
        Seq::empty()
    } else {
        chunks[0] + concatenated(chunks.skip(1))
    }
}

/// `longest_fit` stops at the end of the text or before the first character that does not fit.
proof fn longest_fit_bounds(width: spec_fn(char) -> nat, limit: nat, s: Seq<char>, n: int)
    requires
        1 <= n <= s.len(),
        n == 1 || total(width, s.take(n)) <= limit,
    ensures
        n <= longest_fit(width, limit, s, n) <= s.len(),
        longest_fit(width, limit, s, n) == 1 || total(
            width,
            s.take(longest_fit(width, limit, s, n)),
        ) <= limit,
        longest_fit(width, limit, s, n) < s.len() ==> total(
            width,
            s.take(longest_fit(width, limit, s, n) + 1),
        ) > limit,
    decreases s.len() - n,
{
    if n < s.len() && total(width, s.take(n + 1)) <= limit {
        longest_fit_bounds(width, limit, s, n + 1);
    }
}

/// The width of a longer prefix is at least that of a shorter one.
proof fn total_is_monotone(width: spec_fn(char) -> nat, s: Seq<char>, m: int, n: int)
    requires
        0 <= m <= n <= s.len(),
    ensures
        total(width, s.take(m)) <= total(width, s.take(n)),
    decreases n,
{
    if m < n {
        assert(s.take(n).drop_last() == s.take(n - 1));
        total_is_monotone(width, s, m, n - 1);
    }
}

/// What holds of the first chunk of a text that is not empty.
pub proof fn first_cut_bounds(width: spec_fn(char) -> nat, limit: nat, s: Seq<char>)
    requires
        s.len() > 0,
    ensures
        1 <= first_cut(width, limit, s) <= s.len(),
        first_cut(width, limit, s) == 1 || total(width, s.take(first_cut(width, limit, s)))
            <= limit,
{
    longest_fit_bounds(width, limit, s, 1);
    let fit = longest_fit(width, limit, s, 1);
    after_last_is_last(s, '\n', fit);
    if fit < s.len() {
        total_is_monotone(width, s, first_cut(width, limit, s), fit);
    }
}

/// Widths that agree on a text give it the same width.
proof fn same_total(a: spec_fn(char) -> nat, b: spec_fn(char) -> nat, s: Seq<char>)
    requires
        forall|i: int| 0 <= i < s.len() ==> a(#[trigger] s[i]) == b(s[i]),
    ensures
        total(a, s) == total(b, s),
    decreases s.len(),
{
    if s.len() > 0 {
        let front = s.drop_last();
        assert forall|i: int| 0 <= i < front.len() implies a(#[trigger] front[i]) == b(front[i]) by {
            assert(front[i] == s[i]);
        }
        same_total(a, b, front);
        assert(a(s[s.len() - 1]) == b(s[s.len() - 1]));
    }
}

/// Widths that agree on a text fit the same part of it.
proof fn same_fit(
    a: spec_fn(char) -> nat,
    b: spec_fn(char) -> nat,
    limit: nat,
    s: Seq<char>,
    n: int,
)
    requires
        0 <= n,
        forall|i: int| 0 <= i < s.len() ==> a(#[trigger] s[i]) == b(s[i]),
    ensures
        longest_fit(a, limit, s, n) == longest_fit(b, limit, s, n),
    decreases s.len() - n,
{
    if n < s.len() {
        let part = s.take(n + 1);
        assert forall|i: int| 0 <= i < part.len() implies a(#[trigger] part[i]) == b(part[i]) by {
            assert(part[i] == s[i]);
        }
        same_total(a, b, part);
        same_fit(a, b, limit, s, n + 1);
    }
}

/// Widths that agree on a text cut it into the same chunks.
proof fn same_chunks(a: spec_fn(char) -> nat, b: spec_fn(char) -> nat, limit: nat, s: Seq<char>)
    requires
        forall|i: int| 0 <= i < s.len() ==> a(#[trigger] s[i]) == b(s[i]),
    ensures
        chunks_of(a, limit, s) == chunks_of(b, limit, s),
    decreases s.len(),
{
    if s.len() > 0 {
        same_fit(a, b, limit, s, 1);
        first_cut_bounds(a, limit, s);
        let rest = s.skip(first_cut(a, limit, s));
        assert forall|i: int| 0 <= i < rest.len() implies a(#[trigger] rest[i]) == b(rest[i]) by {
            assert(rest[i] == s[first_cut(a, limit, s) + i]);
        }
        same_chunks(a, b, limit, rest);
    }
}

/// The concatenation of the chunks equals the input.
pub proof fn chunks_concatenate_to_input(width: spec_fn(char) -> nat, limit: nat, s: Seq<char>)
    ensures
        concatenated(chunks_of(width, limit, s)) == s,
    decreases s.len(),
{
    if s.len() > 0 {
        first_cut_bounds(width, limit, s);
        let cut = first_cut(width, limit, s);
        let chunks = chunks_of(width, limit, s);
        chunks_concatenate_to_input(width, limit, s.skip(cut));
        assert(chunks.skip(1) == chunks_of(width, limit, s.skip(cut)));
        assert(s.take(cut) + s.skip(cut) == s);
    }
}

/// Every chunk measures at most the limit, where no single character is wider than it.
pub proof fn chunks_respect_limit(width: spec_fn(char) -> nat, limit: nat, s: Seq<char>)
    requires
        forall|i: int| 0 <= i < s.len() ==> width(#[trigger] s[i]) <= limit,
    ensures
        forall|i: int|
            0 <= i < chunks_of(width, limit, s).len() ==> total(
                width,
                #[trigger] chunks_of(width, limit, s)[i],
            ) <= limit,
    decreases s.len(),
{
    if s.len() > 0 {
        first_cut_bounds(width, limit, s);
        let cut = first_cut(width, limit, s);
        let rest = s.skip(cut);
        chunks_respect_limit(width, limit, rest);
        if cut == 1 {
            assert(s.take(1).drop_last() == Seq::<char>::empty());
            assert(total(width, Seq::<char>::empty()) == 0);
            assert(total(width, s.take(1)) == width(s[0]));
        }
        assert forall|i: int| 0 <= i < chunks_of(width, limit, s).len() implies total(
            width,
            #[trigger] chunks_of(width, limit, s)[i],
        ) <= limit by {
            if i > 0 {
                assert(chunks_of(width, limit, s)[i] == chunks_of(width, limit, rest)[i - 1]);
            }
        }
    }
}

/// A chunk that another one follows ends with a newline, or holds no newline at all and could not
/// have taken the first character of the next chunk too.
pub proof fn chunks_break_at_newlines(width: spec_fn(char) -> nat, limit: nat, s: Seq<char>)
    ensures
        forall|i: int|
            0 <= i < chunks_of(width, limit, s).len() - 1 ==> {
                let chunk = #[trigger] chunks_of(width, limit, s)[i];
                let next = chunks_of(width, limit, s)[i + 1];
                chunk.last() == '\n' || (!chunk.contains('\n') && total(width, chunk) + width(
                    next[0],
                ) > limit)
            },
    decreases s.len(),
{
    if s.len() > 0 {
        let chunks = chunks_of(width, limit, s);
        first_cut_bounds(width, limit, s);
        let cut = first_cut(width, limit, s);
        let rest = s.skip(cut);
        let fit = longest_fit(width, limit, s, 1);
        longest_fit_bounds(width, limit, s, 1);
        after_last_is_last(s, '\n', fit);
        chunks_break_at_newlines(width, limit, rest);
        chunks_are_not_empty(width, limit, rest);
        assert forall|i: int| 0 <= i < chunks.len() - 1 implies {
            let chunk = #[trigger] chunks[i];
            let next = chunks[i + 1];
            chunk.last() == '\n' || (!chunk.contains('\n') && total(width, chunk) + width(next[0])
                > limit)
        } by {
            if i > 0 {
                assert(chunks[i] == chunks_of(width, limit, rest)[i - 1]);
                assert(chunks[i + 1] == chunks_of(width, limit, rest)[i]);
            } else {
                assert(chunks[0] == s.take(cut));
                assert(chunks[1] == chunks_of(width, limit, rest)[0]);
                if after_last(s, '\n', fit) > 0 {
                    assert(chunks[0].last() == s[cut - 1]);
                } else {
                    first_cut_bounds(width, limit, rest);
                    assert(chunks[1][0] == rest[0]);
                    assert(s.take(cut + 1).drop_last() == s.take(cut));
                }
            }
        }
    }
}

/// The width of a text adds up: nothing is narrower or wider for standing next to something else.
pub proof fn widths_add_up(width: spec_fn(char) -> nat, a: Seq<char>, b: Seq<char>, c: char)
    ensures
        total(width, Seq::empty()) == 0,
        total(width, seq![c]) == width(c),
        total(width, a + b) == total(width, a) + total(width, b),
    decreases b.len(),
{
    assert(total(width, Seq::<char>::empty()) == 0);
    assert(seq![c].drop_last() =~= Seq::<char>::empty());
    if b.len() == 0 {
        assert(a + b =~= a);
    } else {
        assert((a + b).drop_last() =~= a + b.drop_last());
        widths_add_up(width, a, b.drop_last(), c);
    }
}

/// A chunk that another one follows could not have been longer at a clean break: together with what
/// follows it, up to any later newline or up to the end of the text, it measures more than the
/// limit.
pub proof fn chunks_are_as_long_as_clean_breaks_allow(
    width: spec_fn(char) -> nat,
    limit: nat,
    s: Seq<char>,
    i: int,
    more: int,
)
    requires
        0 <= i < chunks_of(width, limit, s).len() - 1,
        ({
            let rest = concatenated(chunks_of(width, limit, s).skip(i + 1));
            0 < more <= rest.len() && (more == rest.len() || rest[more - 1] == '\n')
        }),
    ensures
        total(
            width,
            chunks_of(width, limit, s)[i] + concatenated(
                chunks_of(width, limit, s).skip(i + 1),
            ).take(more),
        ) > limit,
    decreases s.len(),
{
    let chunks = chunks_of(width, limit, s);
    let cut = first_cut(width, limit, s);
    first_cut_bounds(width, limit, s);
    let rest = s.skip(cut);
    let after = chunks_of(width, limit, rest);
    assert(chunks.skip(1) =~= after);
    if i == 0 {
        chunks_concatenate_to_input(width, limit, rest);
        let fit = longest_fit(width, limit, s, 1);
        longest_fit_bounds(width, limit, s, 1);
        after_last_is_last(s, '\n', fit);
        assert(chunks[0] + rest.take(more) =~= s.take(cut + more));
        assert(rest[more - 1] == s[cut + more - 1]);
        assert(cut + more > fit);
        total_is_monotone(width, s, fit + 1, cut + more);
    } else {
        assert(chunks[i] == after[i - 1]);
        assert(chunks.skip(i + 1) =~= after.skip(i));
        chunks_are_as_long_as_clean_breaks_allow(width, limit, rest, i - 1, more);
    }
}

/// A chunk measures more than the limit only where it is a single character that does.
pub proof fn only_a_single_character_is_too_wide(
    width: spec_fn(char) -> nat,
    limit: nat,
    s: Seq<char>,
    i: int,
)
    requires
        0 <= i < chunks_of(width, limit, s).len(),
    ensures
        total(width, chunks_of(width, limit, s)[i]) <= limit || chunks_of(width, limit, s)[i].len()
            == 1,
    decreases s.len(),
{
    first_cut_bounds(width, limit, s);
    let cut = first_cut(width, limit, s);
    if i > 0 {
        only_a_single_character_is_too_wide(width, limit, s.skip(cut), i - 1);
    }
}

/// A text that fits is one chunk, and there is no chunk of nothing.
pub proof fn a_text_that_fits_is_one_chunk(width: spec_fn(char) -> nat, limit: nat, s: Seq<char>)
    requires
        total(width, s) <= limit,
    ensures
        chunks_of(width, limit, s) == (if s.len() == 0 {
            Seq::empty()
        } else {
            seq![s]
        }),
{
    if s.len() > 0 {
        let chunks = chunks_of(width, limit, s);
        chunks_are_not_empty(width, limit, s);
        chunks_concatenate_to_input(width, limit, s);
        if chunks.len() > 1 {
            let rest = concatenated(chunks.skip(1));
            assert(chunks.skip(1)[0] == chunks[1]);
            assert(rest.take(rest.len() as int) =~= rest);
            chunks_are_as_long_as_clean_breaks_allow(width, limit, s, 0, rest.len() as int);
        }
        assert(chunks.skip(1) =~= Seq::<Seq<char>>::empty());
        assert(concatenated(Seq::<Seq<char>>::empty()) =~= Seq::<char>::empty());
        assert(concatenated(chunks) =~= chunks[0]);
        assert(chunks =~= seq![s]);
    }
}

/// No chunk is empty.
pub proof fn chunks_are_not_empty(width: spec_fn(char) -> nat, limit: nat, s: Seq<char>)
    ensures
        forall|i: int|
            0 <= i < chunks_of(width, limit, s).len() ==> (#[trigger] chunks_of(
                width,
                limit,
                s,
            )[i]).len() > 0,
        s.len() > 0 ==> chunks_of(width, limit, s).len() > 0,
    decreases s.len(),
{
    if s.len() > 0 {
        first_cut_bounds(width, limit, s);
        let cut = first_cut(width, limit, s);
        chunks_are_not_empty(width, limit, s.skip(cut));
        assert forall|i: int| 0 <= i < chunks_of(width, limit, s).len() implies (
        #[trigger] chunks_of(width, limit, s)[i]).len() > 0 by {
            if i > 0 {
                assert(chunks_of(width, limit, s)[i] == chunks_of(width, limit, s.skip(cut))[i
                    - 1]);
            }
        }
    }
}

/// Measures how much of the text from `start` on makes the next chunk.
fn next_chunk_end<F: Fn(char) -> usize>(
    chars: &Vec<char>,
    start: usize,
    limit: usize,
    measure: &F,
) -> (end: usize)
    requires
        start < chars@.len(),
        is_measure(*measure),
    ensures
        start < end <= chars@.len(),
        end - start == first_cut(widths(*measure), limit as nat, chars@.skip(start as int)),
        forall|i: int| start <= i < end ==> has_width(*measure, #[trigger] chars@[i]),
{
    let ghost width = widths(*measure);
    let ghost rest = chars@.skip(start as int);
    let n: usize = chars.len();
    let first = measure(chars[start]);
    let mut len: usize = first;
    let mut end: usize = start + 1;
    let mut break_at: usize = start;
    if chars[start] == '\n' {
        break_at = end;
    }
    assert(rest.take(1).drop_last() == Seq::<char>::empty());
    assert(total(width, Seq::<char>::empty()) == 0);
    assert(after_last(rest, '\n', 0) == 0);
    while end < n
        invariant_except_break
            longest_fit(width, limit as nat, rest, 1) == longest_fit(
                width,
                limit as nat,
                rest,
                end - start,
            ),
        invariant
            is_measure(*measure),
            width == widths(*measure),
            n == chars@.len(),
            rest == chars@.skip(start as int),
            start < end <= n,
            start <= break_at <= end,
            len == total(width, rest.take(end - start)),
            break_at - start == after_last(rest, '\n', end - start),
            forall|i: int| start <= i < end ==> has_width(*measure, #[trigger] chars@[i]),
        ensures
            longest_fit(width, limit as nat, rest, 1) == end - start,
        decreases n - end,
    {
        let next = measure(chars[end]);
        assert(rest.take(end - start + 1).drop_last() == rest.take(end - start));
        assert(rest.take(end - start + 1).last() == chars@[end as int]);
        if len > limit || next > limit - len {
            break;
        }
        len = len + next;
        if chars[end] == '\n' {
            break_at = end + 1;
        }
        end = end + 1;
    }
    if end == n {
        end
    } else if break_at > start {
        break_at
    } else {
        end
    }
}

/// Splits `text` into chunks, each measuring at most `limit` in the unit returned by `measure`
/// (for example UTF-16 code units for Telegram or characters for Slack). Breaks at the last
/// newline within a chunk when one is available; otherwise falls back to a hard length split.
pub fn split(text: &str, limit: usize, measure: impl Fn(char) -> usize) -> (chunks: Vec<String>)
    requires
        is_measure(measure),
    ensures
        texts(chunks@) == chunks_of(widths(measure), limit as nat, text@),
        forall|width: spec_fn(char) -> nat|
            gives(measure, width) ==> texts(chunks@) == #[trigger] chunks_of(
                width,
                limit as nat,
                text@,
            ),
{
    let ghost width = widths(measure);
    let chars = chars_of(text);
    let mut chunks: Vec<String> = Vec::new();
    let mut start: usize = 0;
    assert(text@.skip(0) == text@);
    assert(texts(chunks@) + chunks_of(width, limit as nat, text@) == chunks_of(
        width,
        limit as nat,
        text@,
    ));
    while start < chars.len()
        invariant
            is_measure(measure),
            width == widths(measure),
            chars@ == text@,
            start <= text@.len(),
            forall|i: int| 0 <= i < start ==> has_width(measure, #[trigger] text@[i]),
            texts(chunks@) + chunks_of(width, limit as nat, text@.skip(start as int)) == chunks_of(
                width,
                limit as nat,
                text@,
            ),
        decreases text@.len() - start,
    {
        let ghost before = texts(chunks@);
        let end = next_chunk_end(&chars, start, limit, &measure);
        let ghost rest = text@.skip(start as int);
        assert(text@.subrange(start as int, end as int) == rest.take(end - start));
        assert(rest.skip(end - start) == text@.skip(end as int));
        chunks.push(text.substring_char(start, end).to_owned());
        assert(texts(chunks@) == before.push(rest.take(end - start)));
        assert(texts(chunks@) + chunks_of(width, limit as nat, text@.skip(end as int)) == before
            + chunks_of(width, limit as nat, rest));
        start = end;
    }
    assert(text@.skip(start as int).len() == 0);
    assert(texts(chunks@) + Seq::<Seq<char>>::empty() == texts(chunks@));
    proof {
        assert forall|v: spec_fn(char) -> nat| gives(measure, v) implies texts(chunks@)
            == #[trigger] chunks_of(v, limit as nat, text@) by {
            assert forall|i: int| 0 <= i < text@.len() implies width(#[trigger] text@[i]) == v(
                text@[i],
            ) by {
                assert(has_width(measure, text@[i]));
                let n = choose|n: usize| call_ensures(measure, (text@[i],), n);
                assert(call_ensures(measure, (text@[i],), n));
            }
            same_chunks(width, v, limit as nat, text@);
        }
    }
    chunks
}

} // verus!
