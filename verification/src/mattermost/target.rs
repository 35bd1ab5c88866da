//! Message, reply and delivery targets.

use crate::text::{chars_of, find_char, first_char, first_char_is_first};
use vstd::prelude::*;

verus! {

/// A text cut at its first bar, where it has one.
pub open spec fn cut_at_bar(s: Seq<char>) -> Option<(Seq<char>, Seq<char>)> {
    let at = first_char(s, '|', 0);
    if at < s.len() {
        Some((s.take(at), s.skip(at + 1)))
    } else {
        None
    }
}

/// The channel type, channel and thread root in a `chat_identifier`; none of them is empty.
pub open spec fn message_target(s: Seq<char>) -> Option<(Seq<char>, Seq<char>, Seq<char>)> {
    match cut_at_bar(s) {
        Some((kind, rest)) => match cut_at_bar(rest) {
            Some((channel, root)) => if kind.len() > 0 && channel.len() > 0 && root.len() > 0 {
                Some((kind, channel, root))
            } else {
                None
            },
            None => None,
        },
        None => None,
    }
}

/// The channel and thread root of a reply target; neither is empty. A trailing post id is left
/// out.
pub open spec fn reply_target(s: Seq<char>) -> Option<(Seq<char>, Seq<char>)> {
    match cut_at_bar(s) {
        Some((channel, rest)) => {
            let root = match cut_at_bar(rest) {
                Some((root, _)) => root,
                None => rest,
            };
            if channel.len() > 0 && root.len() > 0 {
                Some((channel, root))
            } else {
                None
            }
        },
        None => None,
    }
}

/// The post id of a reply target: what follows its second bar, unless that is empty.
pub open spec fn target_post_id(s: Seq<char>) -> Option<Seq<char>> {
    match cut_at_bar(s) {
        Some((_, rest)) => match cut_at_bar(rest) {
            Some((_, id)) => if id.len() > 0 {
                Some(id)
            } else {
                None
            },
            None => None,
        },
        None => None,
    }
}

/// Whether a text holds no bar.
pub open spec fn barless(s: Seq<char>) -> bool {
    forall|i: int| 0 <= i < s.len() ==> #[trigger] s[i] != '|'
}

/// Two texts with a bar between them.
pub open spec fn bar_joined(a: Seq<char>, b: Seq<char>) -> Seq<char> {
    a + seq!['|'] + b
}

/// A text is cut at the bar that joins two texts, where the first one holds none; a text without
/// a bar is not cut.
pub proof fn joined_texts_are_cut_apart(a: Seq<char>, b: Seq<char>)
    requires
        barless(a),
    ensures
        cut_at_bar(bar_joined(a, b)) == Some((a, b)),
        cut_at_bar(a) is None,
{
    let s = bar_joined(a, b);
    first_char_is_first(s, '|', 0);
    first_char_is_first(a, '|', 0);
    let at = first_char(s, '|', 0);
    if at < a.len() {
        assert(s[at] == a[at]);
    } else if at > a.len() {
        assert(s[a.len() as int] == '|');
    }
    assert(s.take(a.len() as int) =~= a);
    assert(s.skip(a.len() as int + 1) =~= b);
}

/// A `chat_identifier` gives back the parts that it was made of, where the channel type and the
/// channel hold no bar and no part is empty.
pub proof fn message_target_reads_back(kind: Seq<char>, channel: Seq<char>, root: Seq<char>)
    requires
        barless(kind),
        barless(channel),
        kind.len() > 0,
        channel.len() > 0,
        root.len() > 0,
    ensures
        message_target(bar_joined(kind, bar_joined(channel, root))) == Some((kind, channel, root)),
{
    joined_texts_are_cut_apart(kind, bar_joined(channel, root));
    joined_texts_are_cut_apart(channel, root);
}

/// A reply target gives back the channel, the root and the post id that it was made of, where the
/// channel and the root hold no bar and no part is empty.
pub proof fn reply_target_reads_back(channel: Seq<char>, root: Seq<char>, id: Seq<char>)
    requires
        barless(channel),
        barless(root),
        channel.len() > 0,
        root.len() > 0,
        id.len() > 0,
    ensures
        reply_target(bar_joined(channel, root)) == Some((channel, root)),
        target_post_id(bar_joined(channel, root)) is None,
        reply_target(bar_joined(channel, bar_joined(root, id))) == Some((channel, root)),
        target_post_id(bar_joined(channel, bar_joined(root, id))) == Some(id),
{
    joined_texts_are_cut_apart(channel, root);
    joined_texts_are_cut_apart(channel, bar_joined(root, id));
    joined_texts_are_cut_apart(root, id);
}

/// Cuts a text at its first bar.
fn split_bar<'a>(text: &'a str) -> (parts: Option<(&'a str, &'a str)>)
    ensures
        match parts {
            Some((before, after)) => cut_at_bar(text@) == Some((before@, after@)),
            None => cut_at_bar(text@) is None,
        },
{
    let chars = chars_of(text);
    let at = find_char(&chars, '|', 0);
    if at < chars.len() {
        assert(text@.subrange(0, at as int) == text@.take(at as int));
        assert(text@.subrange(at + 1, text@.len() as int) == text@.skip(at + 1));
        Some((text.substring_char(0, at), text.substring_char(at + 1, chars.len())))
    } else {
        None
    }
}

/// Splits a stored `chat_identifier` (`<channel_type>|<channel>|<root>`).
pub fn parse_message_target<'a>(value: &'a str) -> (parts: Option<(&'a str, &'a str, &'a str)>)
    ensures
        match parts {
            Some((kind, channel, root)) => message_target(value@) == Some(
                (kind@, channel@, root@),
            ),
            None => message_target(value@) is None,
        },
{
    match split_bar(value) {
        Some((kind, rest)) => match split_bar(rest) {
            Some((channel, root)) => {
                if !kind.is_empty() && !channel.is_empty() && !root.is_empty() {
                    Some((kind, channel, root))
                } else {
                    None
                }
            },
            None => None,
        },
        None => None,
    }
}

/// Splits a reply target (`<channel>|<root>` or `<channel>|<root>|<post-id>`), returning the
/// channel and thread root. Any trailing post id is ignored.
pub fn parse_reply_target<'a>(value: &'a str) -> (parts: Option<(&'a str, &'a str)>)
    ensures
        match parts {
            Some((channel, root)) => reply_target(value@) == Some((channel@, root@)),
            None => reply_target(value@) is None,
        },
{
    match split_bar(value) {
        Some((channel, rest)) => {
            let root = match split_bar(rest) {
                Some((root, _)) => root,
                None => rest,
            };
            if !channel.is_empty() && !root.is_empty() {
                Some((channel, root))
            } else {
                None
            }
        },
        None => None,
    }
}

/// Returns the optional third segment of a channel reply target: the id of the post that
/// triggered the run, used to react to it.
pub fn reply_target_post_id<'a>(value: &'a str) -> (id: Option<&'a str>)
    ensures
        match id {
            Some(id) => target_post_id(value@) == Some(id@),
            None => target_post_id(value@) is None,
        },
{
    match split_bar(value) {
        Some((_, rest)) => match split_bar(rest) {
            Some((_, id)) => {
                if !id.is_empty() {
                    Some(id)
                } else {
                    None
                }
            },
            None => None,
        },
        None => None,
    }
}

} // verus!
