//! Which conversation a message belongs to, and where its reply goes.

use crate::mattermost::event::AttachedFile;
use crate::mattermost::inbox::RawMessage;
use crate::mattermost::target::{
    bar_joined, barless, message_target, parse_message_target, reply_target,
    reply_target_reads_back, target_post_id,
};
use crate::text::{first_char, first_char_is_first, same, trim, trimmed};
use vstd::prelude::*;

verus! {

/// Two texts with a colon between them.
pub open spec fn colon_joined(a: Seq<char>, b: Seq<char>) -> Seq<char> {
    a + ":"@ + b
}

/// What stands behind the bot in the key of a conversation.
pub open spec fn kind_and_place(
    channel_type: Seq<char>,
    channel: Seq<char>,
    root: Seq<char>,
) -> Seq<char> {
    if channel_type == "D"@ {
        colon_joined("dm"@, channel)
    } else {
        colon_joined("ch"@, colon_joined(channel, root))
    }
}

/// The key of a conversation of a bot: a direct message is one conversation; elsewhere each thread
/// is one of its own.
pub open spec fn thread_key_of(
    bot: Seq<char>,
    channel_type: Seq<char>,
    channel: Seq<char>,
    root: Seq<char>,
) -> Seq<char> {
    colon_joined(bot, kind_and_place(channel_type, channel, root))
}

/// Where a reply goes: to the thread; elsewhere than in a direct message with the id of the post
/// that it answers.
pub open spec fn answer_target_of(
    channel_type: Seq<char>,
    channel: Seq<char>,
    root: Seq<char>,
    post_id: Seq<char>,
) -> Seq<char> {
    if channel_type == "D"@ {
        bar_joined(channel, root)
    } else {
        bar_joined(channel, bar_joined(root, post_id))
    }
}

/// Whether a text holds no colon.
pub open spec fn colonless(s: Seq<char>) -> bool {
    forall|i: int| 0 <= i < s.len() ==> #[trigger] s[i] != ':'
}

/// Two texts that are joined are told apart again, where the first one holds no colon.
proof fn joined_texts_are_told_apart(a: Seq<char>, b: Seq<char>, c: Seq<char>, d: Seq<char>)
    requires
        colonless(a),
        colonless(c),
        colon_joined(a, b) == colon_joined(c, d),
    ensures
        a == c,
        b == d,
{
    reveal_strlit(":");
    let s = colon_joined(a, b);
    first_char_is_first(s, ':', 0);
    let at = first_char(s, ':', 0);
    assert(s[a.len() as int] == ':');
    assert(s[c.len() as int] == ':');
    assert(at == a.len()) by {
        if at < a.len() {
            assert(s[at] == a[at]);
        }
    }
    assert(at == c.len()) by {
        if at < c.len() {
            assert(s[at] == c[at]);
        }
    }
    assert(a =~= s.take(at));
    assert(c =~= s.take(at));
    assert(b =~= s.skip(at + 1));
    assert(d =~= s.skip(at + 1));
}

/// The rests of two joined texts are the same where the fronts are.
proof fn same_front_same_rest(a: Seq<char>, b: Seq<char>, d: Seq<char>)
    requires
        colon_joined(a, b) == colon_joined(a, d),
    ensures
        b == d,
{
    let s = colon_joined(a, b);
    let n = (a.len() + ":"@.len()) as int;
    assert(b =~= s.skip(n));
    assert(d =~= s.skip(n));
}

/// Conversations of a bot do not share a key: direct messages with different channels, channel
/// threads that differ in their channel or their root, and a direct message and a channel thread
/// have different keys. Channel ids hold no colon.
pub proof fn conversations_have_their_own_keys(
    bot: Seq<char>,
    type_a: Seq<char>,
    channel_a: Seq<char>,
    root_a: Seq<char>,
    type_b: Seq<char>,
    channel_b: Seq<char>,
    root_b: Seq<char>,
)
    requires
        colonless(channel_a),
        colonless(channel_b),
        thread_key_of(bot, type_a, channel_a, root_a) == thread_key_of(
            bot,
            type_b,
            channel_b,
            root_b,
        ),
    ensures
        (type_a == "D"@) == (type_b == "D"@),
        channel_a == channel_b,
        type_a != "D"@ ==> root_a == root_b,
{
    reveal_strlit("dm");
    reveal_strlit("ch");
    assert("dm"@[0] != "ch"@[0]);
    let kind = |t: Seq<char>|
        if t == "D"@ {
            "dm"@
        } else {
            "ch"@
        };
    let rest_a = if type_a == "D"@ {
        channel_a
    } else {
        colon_joined(channel_a, root_a)
    };
    let rest_b = if type_b == "D"@ {
        channel_b
    } else {
        colon_joined(channel_b, root_b)
    };
    same_front_same_rest(
        bot,
        colon_joined(kind(type_a), rest_a),
        colon_joined(kind(type_b), rest_b),
    );
    joined_texts_are_told_apart(kind(type_a), rest_a, kind(type_b), rest_b);
    if type_a != "D"@ {
        joined_texts_are_told_apart(channel_a, root_a, channel_b, root_b);
    }
}

/// The identity of a bot: a named one of several, or the only one.
pub open spec fn bot_of(name: Option<Seq<char>>) -> Seq<char> {
    match name {
        Some(name) => colon_joined("mattermost"@, name),
        None => "mattermost"@,
    }
}

/// Whether the key of a channel thread of the only bot could be one of a bot of this name: one that
/// is called like the word for a channel, where the channel is called like a word for a kind.
pub open spec fn may_be_mistaken(
    channel_type: Seq<char>,
    channel: Seq<char>,
    name: Option<Seq<char>>,
) -> bool {
    channel_type != "D"@ && (channel == "dm"@ || channel == "ch"@) && name == Some("ch"@)
}

/// The only bot shares no key with a named one.
proof fn a_name_is_no_kind(
    type_a: Seq<char>,
    channel_a: Seq<char>,
    root_a: Seq<char>,
    name: Seq<char>,
    type_b: Seq<char>,
    channel_b: Seq<char>,
    root_b: Seq<char>,
)
    requires
        colonless(name),
        colonless(channel_a),
        !may_be_mistaken(type_a, channel_a, Some(name)),
    ensures
        thread_key_of(bot_of(None), type_a, channel_a, root_a) != thread_key_of(
            bot_of(Some(name)),
            type_b,
            channel_b,
            root_b,
        ),
{
    reveal_strlit(":");
    reveal_strlit("dm");
    reveal_strlit("ch");
    let bare = thread_key_of(bot_of(None), type_a, channel_a, root_a);
    let named = thread_key_of(bot_of(Some(name)), type_b, channel_b, root_b);
    let rest_a = kind_and_place(type_a, channel_a, root_a);
    let rest_b = kind_and_place(type_b, channel_b, root_b);
    if bare == named {
        assert(named =~= colon_joined("mattermost"@, colon_joined(name, rest_b)));
        same_front_same_rest("mattermost"@, rest_a, colon_joined(name, rest_b));
        if type_a == "D"@ {
            joined_texts_are_told_apart("dm"@, channel_a, name, rest_b);
            assert(rest_b[2] == ':');
        } else {
            let place_a = colon_joined(channel_a, root_a);
            joined_texts_are_told_apart("ch"@, place_a, name, rest_b);
            if type_b == "D"@ {
                joined_texts_are_told_apart(channel_a, root_a, "dm"@, channel_b);
            } else {
                let place_b = colon_joined(channel_b, root_b);
                joined_texts_are_told_apart(channel_a, root_a, "ch"@, place_b);
            }
        }
    }
}

/// Two bots never share a session: conversations with the same key are of the same bot. Names and
/// channel ids hold no colon. The only bot and a bot named `ch`, which are never set up side by
/// side, are told apart but for channels with the id `dm` or `ch`.
pub proof fn bots_have_their_own_keys(
    name_a: Option<Seq<char>>,
    type_a: Seq<char>,
    channel_a: Seq<char>,
    root_a: Seq<char>,
    name_b: Option<Seq<char>>,
    type_b: Seq<char>,
    channel_b: Seq<char>,
    root_b: Seq<char>,
)
    requires
        name_a matches Some(name) ==> colonless(name),
        name_b matches Some(name) ==> colonless(name),
        colonless(channel_a),
        colonless(channel_b),
        name_a is None ==> !may_be_mistaken(type_a, channel_a, name_b),
        name_b is None ==> !may_be_mistaken(type_b, channel_b, name_a),
        thread_key_of(bot_of(name_a), type_a, channel_a, root_a) == thread_key_of(
            bot_of(name_b),
            type_b,
            channel_b,
            root_b,
        ),
    ensures
        bot_of(name_a) == bot_of(name_b),
{
    match (name_a, name_b) {
        (Some(a), Some(b)) => {
            let all = "mattermost"@;
            let rest_a = kind_and_place(type_a, channel_a, root_a);
            let rest_b = kind_and_place(type_b, channel_b, root_b);
            assert(thread_key_of(bot_of(name_a), type_a, channel_a, root_a) =~= colon_joined(
                all,
                colon_joined(a, rest_a),
            ));
            assert(thread_key_of(bot_of(name_b), type_b, channel_b, root_b) =~= colon_joined(
                all,
                colon_joined(b, rest_b),
            ));
            same_front_same_rest(all, colon_joined(a, rest_a), colon_joined(b, rest_b));
            joined_texts_are_told_apart(a, rest_a, b, rest_b);
        },
        (None, Some(b)) => {
            a_name_is_no_kind(type_a, channel_a, root_a, b, type_b, channel_b, root_b);
        },
        (Some(a), None) => {
            a_name_is_no_kind(type_b, channel_b, root_b, a, type_a, channel_a, root_a);
        },
        (None, None) => {},
    }
}

/// A reply goes to the thread of the message that it answers, and elsewhere than in a direct message
/// the target names that message; channel ids and roots hold no bar, and none is empty.
pub proof fn a_reply_goes_to_its_thread(
    channel_type: Seq<char>,
    channel: Seq<char>,
    root: Seq<char>,
    post_id: Seq<char>,
)
    requires
        barless(channel),
        barless(root),
        channel.len() > 0,
        root.len() > 0,
        post_id.len() > 0,
    ensures
        reply_target(answer_target_of(channel_type, channel, root, post_id)) == Some(
            (channel, root),
        ),
        target_post_id(answer_target_of(channel_type, channel, root, post_id)) == (if channel_type
            == "D"@ {
            None
        } else {
            Some(post_id)
        }),
{
    reply_target_reads_back(channel, root, post_id);
}

/// The key of a conversation.
pub fn thread_key(bot: &str, channel_type: &str, channel: &str, root: &str) -> (key: String)
    ensures
        key@ == thread_key_of(bot@, channel_type@, channel@, root@),
{
    let mut key = bot.to_owned();
    key.append(":");
    if same(channel_type, "D") {
        key.append("dm");
        key.append(":");
        key.append(channel);
    } else {
        key.append("ch");
        key.append(":");
        key.append(channel);
        key.append(":");
        key.append(root);
    }
    assert(key@ =~= thread_key_of(bot@, channel_type@, channel@, root@));
    key
}

/// Where a reply goes.
pub fn answer_target(channel_type: &str, channel: &str, root: &str, post_id: &str) -> (target:
    String)
    ensures
        target@ == answer_target_of(channel_type@, channel@, root@, post_id@),
{
    let mut target = channel.to_owned();
    target.append("|");
    target.append(root);
    if !same(channel_type, "D") {
        target.append("|");
        target.append(post_id);
    }
    proof {
        reveal_strlit("|");
        assert("|"@ =~= seq!['|']);
        assert(target@ =~= answer_target_of(channel_type@, channel@, root@, post_id@));
    }
    target
}

/// The key and the target of a message that goes on to an agent: one of a supported kind, with some
/// content, from an allowed user and not from the bot itself.
pub open spec fn accepted_as(
    bot: Seq<char>,
    message: RawMessage<Seq<char>, Seq<AttachedFile<Seq<char>>>>,
    is_allowed: bool,
) -> Option<(Seq<char>, Seq<char>)> {
    if message.is_supported && !message.is_from_me && is_allowed && (trimmed(message.text).len() > 0
        || message.files.len() > 0) && message.provider_event_id is Some {
        match message_target(message.chat_identifier) {
            Some((channel_type, channel, root)) => Some(
                (
                    thread_key_of(bot, channel_type, channel, root),
                    answer_target_of(channel_type, channel, root, message.provider_event_id->0),
                ),
            ),
            None => None,
        }
    } else {
        None
    }
}

/// Finds the key and the target of a message that goes on to an agent.
pub fn accept(
    bot: &str,
    message: &RawMessage<String, Vec<AttachedFile<String>>>,
    is_allowed: bool,
) -> (accepted: Option<(String, String)>)
    ensures
        match accepted {
            Some((key, target)) => accepted_as(bot@, message@, is_allowed) == Some((key@, target@)),
            None => accepted_as(bot@, message@, is_allowed) is None,
        },
{
    if !message.is_supported || message.is_from_me || !is_allowed {
        return None;
    }
    if trim(message.text.as_str()).is_empty() && message.files.len() == 0 {
        return None;
    }
    let post_id = match &message.provider_event_id {
        Some(post_id) => post_id,
        None => return None,
    };
    match parse_message_target(message.chat_identifier.as_str()) {
        Some((channel_type, channel, root)) => Some(
            (
                thread_key(bot, channel_type, channel, root),
                answer_target(channel_type, channel, root, post_id.as_str()),
            ),
        ),
        None => None,
    }
}

} // verus!
