//! Replies as Mattermost posts.

use crate::chunk::concatenated;
use crate::text::{chars_of, texts};
use vstd::prelude::*;

verus! {

/// Mattermost's default maximum post length in characters.
pub const MAX_TEXT_CHARS: usize = 16_383;

/// How many posts a text of `n` characters takes.
pub open spec fn post_count(n: nat) -> nat {
    ((n + MAX_TEXT_CHARS - 1) / MAX_TEXT_CHARS as int) as nat
}

/// The posts of a text: as many characters as fit in one, time and again.
pub open spec fn posts_of(s: Seq<char>) -> Seq<Seq<char>> {
    Seq::new(
        post_count(s.len()),
        |i: int|
            s.subrange(
                i * MAX_TEXT_CHARS,
                if (i + 1) * MAX_TEXT_CHARS <= s.len() {
                    (i + 1) * MAX_TEXT_CHARS
                } else {
                    s.len() as int
                },
            ),
    )
}

/// The posts one after the other are the text; none is empty or longer than Mattermost allows.
pub proof fn posts_concatenate_to_text(s: Seq<char>)
    ensures
        concatenated(posts_of(s)) == s,
        forall|i: int|
            0 <= i < posts_of(s).len() ==> 0 < (#[trigger] posts_of(s)[i]).len() <= MAX_TEXT_CHARS,
    decreases s.len(),
{
    let posts = posts_of(s);
    if s.len() > 0 {
        let cut = if s.len() > MAX_TEXT_CHARS {
            MAX_TEXT_CHARS as int
        } else {
            s.len() as int
        };
        let rest = s.skip(cut);
        posts_concatenate_to_text(rest);
        assert(posts.skip(1).len() == posts_of(rest).len());
        assert forall|i: int| 0 <= i < posts_of(rest).len() implies posts.skip(1)[i] == posts_of(
            rest,
        )[i] by {
            assert(posts.skip(1)[i] =~= posts_of(rest)[i]);
        }
        assert(posts.skip(1) =~= posts_of(rest));
        assert(posts[0] =~= s.take(cut));
        assert(s.take(cut) + s.skip(cut) =~= s);
        assert forall|i: int| 0 <= i < posts.len() implies 0 < (#[trigger] posts[i]).len()
            <= MAX_TEXT_CHARS by {
            if i > 0 {
                assert(posts[i] == posts.skip(1)[i - 1]);
            }
        }
    } else {
        assert(posts =~= Seq::empty());
    }
}

/// Splits a reply into posts.
pub fn split_text(text: &str) -> (chunks: Vec<String>)
    ensures
        texts(chunks@) == posts_of(text@),
{
    let n: usize = chars_of(text).len();
    let mut chunks: Vec<String> = Vec::new();
    let mut start: usize = 0;
    while start < n
        invariant
            n == text@.len(),
            start <= n,
            start == chunks@.len() * MAX_TEXT_CHARS || start == n,
            start == n ==> chunks@.len() == post_count(n as nat),
            chunks@.len() <= post_count(n as nat),
            forall|i: int|
                0 <= i < chunks@.len() ==> #[trigger] texts(chunks@)[i] == posts_of(text@)[i],
        decreases n - start,
    {
        let end: usize = if n - start > MAX_TEXT_CHARS {
            start + MAX_TEXT_CHARS
        } else {
            n
        };
        let ghost before = chunks@;
        chunks.push(text.substring_char(start, end).to_owned());
        assert forall|i: int| 0 <= i < chunks@.len() implies #[trigger] texts(chunks@)[i]
            == posts_of(text@)[i] by {
            if i < before.len() {
                assert(texts(chunks@)[i] == texts(before)[i]);
            }
        }
        start = end;
    }
    assert(texts(chunks@) =~= posts_of(text@));
    chunks
}

} // verus!
