//! What holds of the Mattermost channel: which posts reach the agent, and where replies go.

use crate::mattermost::client::{
    destination_of, post_to_mark, reaction_path_of, step_to, without_text, Destination, NewPost,
    SendStep, DONE_EMOJI, FAILED_EMOJI, FIRST_SEQ, WORKING_EMOJI,
};
use crate::mattermost::event::{
    allowed_extensions, event_of, extension_of, first_mention, first_mention_is_first, is_accepted,
    is_allowed, is_mention_at, json_strings, mentioned_in, on_list, redacted, removed,
    without_mention, AttachedFile, Event, Identity, PostedData,
};
use crate::mattermost::http::{failure_of, retry_seconds, Body, Call, CallStep};
use crate::mattermost::inbox::{
    is_active, is_inbox, message_of, messages_after, newest_id, place_is_found, place_of, with_event,
    with_thread, InboxRow, RawMessage,
};
use crate::mattermost::posts::{post_count, posts_of};
use crate::mattermost::receiver::{doubled, step_for, wait_after, Frame};
use crate::mattermost::target::{
    bar_joined, barless, cut_at_bar, joined_texts_are_cut_apart, message_target, reply_target,
    target_post_id,
};
use crate::mattermost::thread::{accepted_as, answer_target_of, thread_key_of};
use crate::mattermost::url::websocket_url_of;
use crate::number::{decimal, parsed_unsigned};
use crate::text::{
    after_last, after_last_is_last, ascii_lowered, begins_with, first_char, first_char_is_first,
    occurs_at, trimmed,
};
use vstd::prelude::*;

verus! {

/// Which posts reach the agent: those of a supported kind, of a user on the allow list, that are not
/// the bot's own, and that stand in a direct message, mention the bot in a channel of any type, or
/// continue a thread that the bot has replied in. Such a post keeps all it holds; any other one
/// loses its text and its files, and nothing else.
pub proof fn posts_for_the_bot_reach_the_agent(
    event: Event<Seq<char>, Seq<AttachedFile<Seq<char>>>>,
    in_active_thread: bool,
    is_on_list: bool,
)
    ensures
        ({
            let accepted = is_accepted(event, in_active_thread, is_on_list);
            let kept = redacted(event, accepted);
            let may_be_read = event.is_supported && !event.is_from_me && is_on_list;
            &&& may_be_read && event.is_mention ==> accepted
            &&& may_be_read && event.channel_type == "D"@ ==> accepted
            &&& may_be_read && in_active_thread ==> accepted
            &&& accepted ==> may_be_read && (event.is_mention || event.channel_type == "D"@
                || in_active_thread)
            &&& accepted ==> kept == event
            &&& !accepted ==> kept.text.len() == 0 && kept.files.len() == 0
            &&& kept.event_id == event.event_id && kept.channel_type == event.channel_type
                && kept.channel == event.channel && kept.user == event.user && kept.root
                == event.root && kept.is_mention == event.is_mention && kept.is_from_me
                == event.is_from_me && kept.is_supported == event.is_supported
        }),
{
}

/// What a post is to the bot is read off the post: its id, channel, author and files are its own, a
/// post at the top level roots its thread, it mentions the bot where the bot is among those who are
/// mentioned, it is the bot's own where the bot wrote it, and it is supported where it is an
/// ordinary post with an author, a channel, a root, and a text or a file.
pub proof fn a_post_is_what_it_says(
    data: PostedData<Seq<char>, Seq<AttachedFile<Seq<char>>>>,
    identity: Identity<Seq<char>>,
    mentioned: Option<Seq<Seq<char>>>,
)
    ensures
        event_of(data, identity, mentioned) is Some <==> data.post is Some,
        data.post matches Some(post) ==> (event_of(data, identity, mentioned) matches Some(event) && {
            &&& event.event_id == post.id && event.channel == post.channel_id && event.user
                == post.user_id && event.files == post.files
            &&& match data.channel_type {
                Some(channel_type) => event.channel_type == channel_type,
                None => event.channel_type.len() == 0,
            }
            &&& event.text == without_mention(post.message, identity.username)
            &&& post.root_id.len() > 0 ==> event.root == post.root_id
            &&& post.root_id.len() == 0 ==> event.root == post.id
            &&& event.is_mention <==> match mentioned {
                Some(users) => exists|i: int|
                    0 <= i < users.len() && #[trigger] users[i] == identity.user_id,
                None => false,
            }
            &&& event.is_from_me <==> post.user_id == identity.user_id
            &&& event.is_supported <==> post.kind.len() == 0 && post.user_id.len() > 0
                && post.channel_id.len() > 0 && event.root.len() > 0 && (trimmed(event.text).len()
                > 0 || post.files.len() > 0)
        }),
        data.mentions matches Some(raw) ==> mentioned_in(data) == json_strings(raw),
        data.mentions is None ==> mentioned_in(data) is None,
{
}

/// A user is mentioned where the at sign and the name stand, and no letter, digit, underscore or
/// hyphen of ASCII follows, not even behind a dot.
pub proof fn a_mention_ends_with_the_handle(s: Seq<char>, token: Seq<char>, at: int)
    requires
        occurs_at(s, token, at),
    ensures
        ({
            let end = (at + token.len()) as int;
            let goes_on = |c: char|
                ('a' <= c && c <= 'z') || ('A' <= c && c <= 'Z') || ('0' <= c && c <= '9') || c
                    == '_' || c == '-';
            &&& end == s.len() ==> is_mention_at(s, token, at)
            &&& end < s.len() && goes_on(s[end]) ==> !is_mention_at(s, token, at)
            &&& end + 1 < s.len() && s[end] == '.' && goes_on(s[end + 1]) ==> !is_mention_at(
                s,
                token,
                at,
            )
            &&& end < s.len() && !goes_on(s[end]) && s[end] != '.' ==> is_mention_at(s, token, at)
            &&& end + 1 == s.len() && s[end] == '.' ==> is_mention_at(s, token, at)
            &&& end + 1 < s.len() && s[end] == '.' && !goes_on(s[end + 1]) ==> is_mention_at(
                s,
                token,
                at,
            )
        }),
{
}

/// A mention stands nowhere but where the at sign and the name do. The first one goes out of a post,
/// with all that follow it; what is left is trimmed. Where the name is not known, a post stays as it
/// is.
pub proof fn mentions_go_out_of_a_post(text: Seq<char>, username: Seq<char>, at: int)
    ensures
        is_mention_at(text, seq!['@'] + username, at) ==> occurs_at(
            text,
            seq!['@'] + username,
            at,
        ),
        username.len() == 0 ==> without_mention(text, username) == text,
        username.len() > 0 ==> without_mention(text, username) == trimmed(
            removed(text, seq!['@'] + username, 0),
        ),
        0 <= at <= text.len() ==> removed(text, seq!['@'] + username, at) == match first_mention(
            text,
            seq!['@'] + username,
            at,
        ) {
            Some(found) => text.subrange(at, found) + removed(
                text,
                seq!['@'] + username,
                found + 1 + username.len(),
            ),
            None => text.skip(at),
        },
{
    let token = seq!['@'] + username;
    if 0 <= at <= text.len() {
        first_mention_is_first(text, token, at);
    }
}

/// The extension is what stands behind the last dot.
proof fn extension_behind_last_dot(stem: Seq<char>, extension: Seq<char>)
    requires
        !extension.contains('.'),
    ensures
        extension_of(stem.push('.') + extension) == Some(extension),
        extension_of(extension) is None,
{
    let name = stem.push('.') + extension;
    let n = stem.len() as int + 1;
    after_last_is_last(name, '.', name.len() as int);
    let at = after_last(name, '.', name.len() as int);
    assert(name[n - 1] == '.');
    if at > n {
        assert(name[at - 1] == extension[at - 1 - n]);
        assert(extension.contains('.'));
    }
    assert(name.skip(n) =~= extension);
    after_last_is_last(extension, '.', extension.len() as int);
    let inner = after_last(extension, '.', extension.len() as int);
    if inner > 0 {
        assert(extension[inner - 1] == '.');
        assert(extension.contains('.'));
    }
}

/// The listed extensions are in lower case.
proof fn extensions_are_lower()
    ensures
        forall|i: int|
            0 <= i < allowed_extensions().len() ==> ascii_lowered(
                #[trigger] allowed_extensions()[i],
            ) == allowed_extensions()[i],
{
    reveal_strlit("txt");
    reveal_strlit("log");
    reveal_strlit("md");
    reveal_strlit("csv");
    reveal_strlit("json");
    reveal_strlit("yaml");
    reveal_strlit("yml");
    reveal_strlit("toml");
    reveal_strlit("xml");
    reveal_strlit("html");
    reveal_strlit("css");
    reveal_strlit("js");
    reveal_strlit("ts");
    reveal_strlit("py");
    reveal_strlit("rs");
    reveal_strlit("go");
    reveal_strlit("java");
    reveal_strlit("c");
    reveal_strlit("h");
    reveal_strlit("cpp");
    reveal_strlit("sh");
    reveal_strlit("sql");
    reveal_strlit("pdf");
    reveal_strlit("png");
    reveal_strlit("jpg");
    reveal_strlit("jpeg");
    reveal_strlit("gif");
    reveal_strlit("webp");
    reveal_strlit("svg");
    assert forall|i: int| 0 <= i < allowed_extensions().len() implies ascii_lowered(
        #[trigger] allowed_extensions()[i],
    ) == allowed_extensions()[i] by {
        assert(ascii_lowered(allowed_extensions()[i]) =~= allowed_extensions()[i]);
    }
}

/// A file is taken where what stands behind its last dot is, in any case, one of these extensions;
/// a file without a dot is not.
pub proof fn files_are_taken_by_their_extension(
    stem: Seq<char>,
    extension: Seq<char>,
    file: AttachedFile<Seq<char>>,
)
    requires
        !extension.contains('.'),
    ensures
        is_allowed(stem.push('.') + extension) <==> seq![
            "txt"@,
            "log"@,
            "md"@,
            "csv"@,
            "json"@,
            "yaml"@,
            "yml"@,
            "toml"@,
            "xml"@,
            "html"@,
            "css"@,
            "js"@,
            "ts"@,
            "py"@,
            "rs"@,
            "go"@,
            "java"@,
            "c"@,
            "h"@,
            "cpp"@,
            "sh"@,
            "sql"@,
            "pdf"@,
            "png"@,
            "jpg"@,
            "jpeg"@,
            "gif"@,
            "webp"@,
            "svg"@,
        ].contains(ascii_lowered(extension)),
        !is_allowed(extension),
        on_list()(file) <==> is_allowed(file.filename),
{
    extension_behind_last_dot(stem, extension);
    extensions_are_lower();
    let list = allowed_extensions();
    let lower = ascii_lowered(extension);
    if is_allowed(stem.push('.') + extension) {
        let i = choose|i: int|
            0 <= i < list.len() && ascii_lowered(#[trigger] list[i]) == ascii_lowered(
                extension_of(stem.push('.') + extension)->0,
            );
        assert(list[i] == lower);
    }
    if list.contains(lower) {
        let i = choose|i: int| 0 <= i < list.len() && list[i] == lower;
        assert(ascii_lowered(list[i]) == lower);
    }
}

/// A target with a bar is cut at its first one.
proof fn a_cut_target_is_joined_again(s: Seq<char>)
    ensures
        cut_at_bar(s) matches Some((a, b)) ==> barless(a) && s == bar_joined(a, b),
        cut_at_bar(s) is None ==> barless(s),
{
    first_char_is_first(s, '|', 0);
    let at = first_char(s, '|', 0);
    if at < s.len() {
        assert(s =~= bar_joined(s.take(at), s.skip(at + 1)));
    }
}

/// A reply target is a channel, a bar and the root of a thread, none of them empty, and maybe a bar
/// and a post behind them; nothing else is one.
pub proof fn a_reply_target_is_a_channel_and_a_root(s: Seq<char>)
    ensures
        reply_target(s) matches Some((channel, root)) ==> channel.len() > 0 && root.len() > 0
            && barless(channel) && barless(root) && (s == bar_joined(channel, root) || exists|
            id: Seq<char>,
        | s == #[trigger] bar_joined(channel, bar_joined(root, id))),
        target_post_id(s) matches Some(id) ==> id.len() > 0 && exists|a: Seq<char>, b: Seq<char>|
            barless(a) && barless(b) && s == #[trigger] bar_joined(a, bar_joined(b, id)),
        barless(s) ==> reply_target(s) is None && target_post_id(s) is None && message_target(s)
            is None,
{
    a_cut_target_is_joined_again(s);
    if let Some((a, rest)) = cut_at_bar(s) {
        a_cut_target_is_joined_again(rest);
        if let Some((b, id)) = cut_at_bar(rest) {
            assert(s == bar_joined(a, bar_joined(b, id)));
        }
        assert(s[a.len() as int] == '|');
    }
}

/// A target whose parts are empty is no reply target.
pub proof fn empty_parts_make_no_target(a: Seq<char>, b: Seq<char>, c: Seq<char>)
    requires
        barless(a),
        barless(b),
    ensures
        a.len() == 0 || b.len() == 0 ==> reply_target(bar_joined(a, b)) is None && reply_target(
            bar_joined(a, bar_joined(b, c)),
        ) is None,
        a.len() == 0 || b.len() == 0 || c.len() == 0 ==> message_target(
            bar_joined(a, bar_joined(b, c)),
        ) is None,
        message_target(bar_joined(a, b)) is None,
        c.len() == 0 ==> target_post_id(bar_joined(a, bar_joined(b, c))) is None,
        c.len() > 0 ==> target_post_id(bar_joined(a, bar_joined(b, c))) == Some(c),
        target_post_id(bar_joined(a, b)) is None,
{
    joined_texts_are_cut_apart(a, b);
    joined_texts_are_cut_apart(a, bar_joined(b, c));
    joined_texts_are_cut_apart(b, c);
}

/// Where a target leads: a reply target to its thread, whoever is in it; `channel:` to the channel
/// that it names; `user:` to the direct messages of a user on the allow list, and of no other.
/// Anything else leads nowhere.
pub proof fn targets_lead_where_they_say(
    target: Seq<char>,
    name: Seq<char>,
    allowed: Seq<Seq<char>>,
)
    requires
        barless(name),
    ensures
        reply_target(target) matches Some((channel, root)) ==> destination_of(target, allowed)
            == Ok::<Destination<Seq<char>>, &'static str>(Destination::Thread { channel, root }),
        destination_of("channel:"@ + name, allowed) == (if trimmed(name).len() > 0 {
            Ok::<Destination<Seq<char>>, &'static str>(Destination::Channel(trimmed(name)))
        } else {
            Err("invalid Mattermost channel target")
        }),
        destination_of("user:"@ + name, allowed) == (if allowed.contains(trimmed(name)) {
            Ok::<Destination<Seq<char>>, &'static str>(Destination::User(trimmed(name)))
        } else {
            Err("Mattermost delivery user is not allowlisted")
        }),
        reply_target(target) is None && !begins_with(target, "channel:"@) && !begins_with(
            target,
            "user:"@,
        ) ==> destination_of(target, allowed) == Err::<Destination<Seq<char>>, &'static str>(
            "invalid Mattermost delivery target",
        ),
{
    reveal_strlit("channel:");
    reveal_strlit("user:");
    let channel = "channel:"@ + name;
    let user = "user:"@ + name;
    assert(barless(channel)) by {
        assert forall|i: int| 0 <= i < channel.len() implies #[trigger] channel[i] != '|' by {
            if i >= 8 {
                assert(channel[i] == name[i - 8]);
            }
        }
    }
    assert(barless(user)) by {
        assert forall|i: int| 0 <= i < user.len() implies #[trigger] user[i] != '|' by {
            if i >= 5 {
                assert(user[i] == name[i - 5]);
            }
        }
    }
    a_reply_target_is_a_channel_and_a_root(channel);
    a_reply_target_is_a_channel_and_a_root(user);
    assert(channel.subrange(0, 8) =~= "channel:"@);
    assert(channel.skip(8) =~= name);
    assert(user.subrange(0, 5) =~= "user:"@);
    assert(user.skip(5) =~= name);
    if begins_with(user, "channel:"@) {
        assert(user.subrange(0, 8)[0] == 'c');
        assert(user[0] == 'u');
    }
}

/// A message goes into the thread, or to the top level of the channel; the direct messages with a
/// user are opened first. Its text is not changed.
pub proof fn a_message_is_posted_where_it_leads(
    channel: Seq<char>,
    root: Seq<char>,
    user: Seq<char>,
    text: Seq<char>,
)
    ensures
        step_to(Destination::Thread { channel, root }, text) == SendStep::Post(
            NewPost { channel_id: channel, message: text, root: Some(root) },
        ),
        step_to(Destination::Channel(channel), text) == SendStep::Post(
            NewPost { channel_id: channel, message: text, root: None },
        ),
        step_to(Destination::User(user), text) == SendStep::OpenDirect(user),
{
}

/// The post that triggered a run is marked where the reply target names it. The marks are the
/// hourglass while the agent works, and the check mark or the cross afterwards.
pub proof fn the_triggering_post_is_marked(
    channel: Seq<char>,
    root: Seq<char>,
    id: Seq<char>,
    target: Seq<char>,
    user: Seq<char>,
)
    requires
        barless(channel),
        barless(root),
        channel.len() > 0,
        root.len() > 0,
    ensures
        id.len() > 0 ==> post_to_mark(bar_joined(channel, bar_joined(root, id))) == Some(id),
        post_to_mark(bar_joined(channel, root)) is None,
        reply_target(target) is None ==> post_to_mark(target) is None,
        reaction_path_of(user, id) == "/api/v4/users/"@ + user + "/posts/"@ + id + "/reactions/"@
            + "hourglass_flowing_sand"@,
        WORKING_EMOJI == "hourglass_flowing_sand",
        DONE_EMOJI == "white_check_mark",
        FAILED_EMOJI == "x",
        FIRST_SEQ == 2,
{
    joined_texts_are_cut_apart(channel, root);
    joined_texts_are_cut_apart(channel, bar_joined(root, id));
    joined_texts_are_cut_apart(root, id);
}

/// Leaving a text out of a list leaves all other texts in it.
pub proof fn only_that_text_is_left_out(list: Seq<Seq<char>>, text: Seq<char>, other: Seq<char>)
    ensures
        without_text(list, text).contains(other) <==> list.contains(other) && other != text,
        !list.contains(text) ==> without_text(list, text) == list,
    decreases list.len(),
{
    reveal(Seq::filter);
    if list.len() > 0 {
        let front = list.drop_last();
        let last = list.last();
        only_that_text_is_left_out(front, text, other);
        assert(list =~= front.push(last));
        let kept = without_text(front, text);
        if list.contains(other) {
            let i = choose|i: int| 0 <= i < list.len() && list[i] == other;
            if i < front.len() {
                assert(front[i] == other);
            }
        }
        if front.contains(other) {
            let i = choose|i: int| 0 <= i < front.len() && front[i] == other;
            assert(list[i] == other);
        }
        if front.contains(text) {
            let i = choose|i: int| 0 <= i < front.len() && front[i] == text;
            assert(list[i] == text);
        }
        assert(list[list.len() - 1] == last);
        if last != text {
            assert(without_text(list, text) == kept.push(last));
            if kept.contains(other) {
                let i = choose|i: int| 0 <= i < kept.len() && kept[i] == other;
                assert(kept.push(last)[i] == other);
            }
            if kept.push(last).contains(other) {
                let i = choose|i: int| 0 <= i < kept.push(last).len() && kept.push(last)[i] == other;
                if i < kept.len() {
                    assert(kept[i] == other);
                }
            }
            assert(kept.push(last)[kept.len() as int] == last);
        }
    }
}

/// A post that is new goes behind the others under the next id, with all that the event says of it;
/// one that is there changes nothing.
pub proof fn a_new_post_is_kept_as_it_came(
    rows: Seq<InboxRow<Seq<char>, Seq<AttachedFile<Seq<char>>>>>,
    event: Event<Seq<char>, Seq<AttachedFile<Seq<char>>>>,
)
    requires
        0 <= newest_id(rows) < i64::MAX,
    ensures
        (exists|i: int| 0 <= i < rows.len() && (#[trigger] rows[i]).event_id == event.event_id)
            ==> with_event(rows, event) == rows,
        (forall|i: int| 0 <= i < rows.len() ==> (#[trigger] rows[i]).event_id != event.event_id)
            ==> {
            let after = with_event(rows, event);
            let row = after.last();
            &&& after.len() == rows.len() + 1 && after.drop_last() == rows
            &&& row.id == newest_id(rows) + 1
            &&& row.event_id == event.event_id && row.channel == event.channel && row.user
                == event.user && row.text == event.text && row.root == event.root
                && row.channel_type == event.channel_type && row.files == event.files
                && row.is_from_me == event.is_from_me && row.is_supported == event.is_supported
        },
        rows.len() == 0 ==> newest_id(rows) == 0,
        rows.len() > 0 ==> newest_id(rows) == rows[rows.len() - 1].id,
{
    place_is_found(rows, event.event_id);
    assert(place_of(rows, event.event_id) is None ==> with_event(rows, event).drop_last() =~= rows);
}

/// A row is handed on as it is: with its id as the cursor, and its channel type, channel and root as
/// where it is from.
pub proof fn a_row_is_handed_on_as_it_is(
    row: InboxRow<Seq<char>, Seq<AttachedFile<Seq<char>>>>,
)
    ensures
        message_of(row) == (RawMessage {
            row_id: row.id,
            provider_event_id: Some(row.event_id),
            channel: "mattermost",
            handle: row.user,
            chat_identifier: row.channel_type + seq!['|'] + (row.channel + seq!['|'] + row.root),
            is_group: false,
            text: row.text,
            voice: None,
            files: row.files,
            is_from_me: row.is_from_me,
            is_supported: row.is_supported,
            thread_id: None,
        }),
{
}

/// What stands behind the first rows does not matter to what is read of them.
proof fn messages_of_first(
    rows: Seq<InboxRow<Seq<char>, Seq<AttachedFile<Seq<char>>>>>,
    row: InboxRow<Seq<char>, Seq<AttachedFile<Seq<char>>>>,
    since: int,
    n: int,
)
    requires
        0 <= n <= rows.len(),
    ensures
        messages_after(rows.push(row), since, n) == messages_after(rows, since, n),
    decreases n,
{
    if n > 0 {
        messages_of_first(rows, row, since, n - 1);
        assert(rows.push(row)[n - 1] == rows[n - 1]);
    }
}

/// Every row past the cursor is read, in order, and no other.
pub proof fn rows_past_the_cursor_are_read(
    rows: Seq<InboxRow<Seq<char>, Seq<AttachedFile<Seq<char>>>>>,
    row: InboxRow<Seq<char>, Seq<AttachedFile<Seq<char>>>>,
    since: int,
)
    ensures
        messages_after(Seq::empty(), since, 0).len() == 0,
        messages_after(rows.push(row), since, rows.len() as int + 1) == (if row.id > since {
            messages_after(rows, since, rows.len() as int).push(message_of(row))
        } else {
            messages_after(rows, since, rows.len() as int)
        }),
{
    messages_of_first(rows, row, since, rows.len() as int);
    assert(rows.push(row)[rows.len() as int] == row);
}

/// A thread that the bot replies in is remembered behind the others; five hundred are, and the
/// oldest one goes for one more. A thread that is known, or has no root, changes nothing.
pub proof fn five_hundred_threads_are_remembered(
    threads: Seq<(Seq<char>, Seq<char>)>,
    channel: Seq<char>,
    root: Seq<char>,
)
    requires
        threads.len() <= 500,
    ensures
        root.len() == 0 || threads.contains((channel, root)) ==> with_thread(threads, channel, root)
            == threads,
        root.len() > 0 && !threads.contains((channel, root)) ==> with_thread(threads, channel, root)
            == (if threads.len() < 500 {
            threads
        } else {
            threads.skip(1)
        }).push((channel, root)),
        is_active(threads, channel, root) <==> root.len() > 0 && exists|i: int|
            0 <= i < threads.len() && #[trigger] threads[i] == (channel, root),
{
    if threads.len() == 500 {
        assert(threads.push((channel, root)).skip(1) =~= threads.skip(1).push((channel, root)));
    }
}

/// A conversation is known by its bot, by what kind it is, and by its channel; in a channel also by
/// the root of its thread.
pub proof fn a_conversation_has_this_key(
    bot: Seq<char>,
    channel_type: Seq<char>,
    channel: Seq<char>,
    root: Seq<char>,
    post_id: Seq<char>,
)
    ensures
        channel_type == "D"@ ==> thread_key_of(bot, channel_type, channel, root) == bot + ":"@ + (
        "dm"@ + ":"@ + channel),
        channel_type != "D"@ ==> thread_key_of(bot, channel_type, channel, root) == bot + ":"@ + (
        "ch"@ + ":"@ + (channel + ":"@ + root)),
        channel_type == "D"@ ==> answer_target_of(channel_type, channel, root, post_id) == channel
            + seq!['|'] + root,
        channel_type != "D"@ ==> answer_target_of(channel_type, channel, root, post_id) == channel
            + seq!['|'] + (root + seq!['|'] + post_id),
{
}

/// A message goes on to an agent where it is supported, not the bot's own, of a user on the allow
/// list, has a text or a file, and tells its post and where it is from; then it goes on under the
/// key of its conversation, and its answer to where it is from.
pub proof fn a_message_goes_on_to_its_conversation(
    bot: Seq<char>,
    message: RawMessage<Seq<char>, Seq<AttachedFile<Seq<char>>>>,
    is_on_list: bool,
)
    ensures
        accepted_as(bot, message, is_on_list) is Some <==> message.is_supported
            && !message.is_from_me && is_on_list && (trimmed(message.text).len() > 0
            || message.files.len() > 0) && message.provider_event_id is Some && message_target(
            message.chat_identifier,
        ) is Some,
        accepted_as(bot, message, is_on_list) matches Some((key, target)) ==> {
            let (channel_type, channel, root) = message_target(message.chat_identifier)->0;
            &&& key == thread_key_of(bot, channel_type, channel, root)
            &&& target == answer_target_of(
                channel_type,
                channel,
                root,
                message.provider_event_id->0,
            )
        },
{
}

/// A text takes as few posts as it can: all but the last hold 16383 characters.
pub proof fn posts_are_filled(s: Seq<char>, i: int)
    requires
        0 <= i < posts_of(s).len(),
    ensures
        i < posts_of(s).len() - 1 ==> posts_of(s)[i].len() == 16_383,
        posts_of(s)[i].len() <= 16_383,
        s.len() <= 16_383 ==> posts_of(s) == seq![s],
{
    assert(post_count(s.len()) == posts_of(s).len());
    if s.len() <= 16_383 {
        assert(post_count(s.len()) == 1);
        assert(posts_of(s)[0] =~= s);
        assert(posts_of(s) =~= seq![s]);
    }
}

/// An answer to too many requests is waited out once, as many seconds as it says, or one; every
/// other answer is decoded at once.
pub proof fn too_many_requests_are_waited_out(
    status: u16,
    header: Option<Seq<char>>,
    seconds: u64,
)
    ensures
        ({
            let fresh = Call { retried: false };
            &&& status != 429 ==> fresh.answered(status, header).1 == CallStep::Decode
            &&& status == 429 && header is None ==> fresh.answered(status, header).1
                == CallStep::RetryAfter(1)
            &&& status == 429 ==> fresh.answered(status, Some(decimal(seconds as nat))).1
                == CallStep::RetryAfter(seconds)
            &&& status == 429 && header is Some && parsed_unsigned(header->0, u64::MAX as int)
                is None ==> fresh.answered(status, header).1 == CallStep::RetryAfter(1)
            &&& (Call { retried: true }).answered(status, header).1 == CallStep::Decode
        }),
        header matches Some(value) ==> (parsed_unsigned(value, u64::MAX as int) matches Some(n)
            ==> retry_seconds(header) == n),
{
    crate::number::decimal_reads_back(seconds as nat);
    crate::number::only_digits_are_read(
        decimal(seconds as nat),
        u64::MAX as int,
        decimal(seconds as nat),
    );
}

/// An answer is good exactly where its status is one of success and its body can be read. What is
/// wrong with any other names the path: that it was too much, that it cannot be decoded, or what the
/// server says, or else its status.
pub proof fn only_success_is_good(
    path: Seq<char>,
    status: u16,
    status_text: Seq<char>,
    message: String,
)
    ensures
        ({
            let silent = Body::Read { message: None };
            let speaking = Body::Read { message: Some(message) };
            let limited = Some("Mattermost "@ + path + " rate limited"@);
            &&& status == 429 ==> failure_of(path, status, status_text, Body::Unreadable) == limited
                && failure_of(path, status, status_text, silent) == limited && failure_of(
                path,
                status,
                status_text,
                speaking,
            ) == limited
            &&& status != 429 ==> failure_of(path, status, status_text, Body::Unreadable) == Some(
                "decode Mattermost "@ + path + " response ("@ + status_text + ")"@,
            )
            &&& 200 <= status <= 299 ==> failure_of(path, status, status_text, silent) is None
                && failure_of(path, status, status_text, speaking) is None
            &&& status != 429 && !(200 <= status <= 299) ==> failure_of(
                path,
                status,
                status_text,
                silent,
            ) == Some("Mattermost "@ + path + " failed: "@ + decimal(status as nat))
                && failure_of(path, status, status_text, speaking) == Some(
                "Mattermost "@ + path + " failed: "@ + message@,
            )
        }),
{
}

/// The wait doubles with every failure in a row, from one second up to thirty.
pub proof fn waits_double_up_to_thirty_seconds(seconds: int)
    ensures
        doubled(seconds) == (if 2 * seconds < 30 {
            2 * seconds
        } else {
            30
        }),
        wait_after(0) == 1,
        wait_after(1) == 2,
        wait_after(2) == 4,
        wait_after(3) == 8,
        wait_after(4) == 16,
        wait_after(5) == 30,
{
    reveal_with_fuel(wait_after, 7);
}

/// A frame with a text brings an event, a ping is answered, and a connection that was closed, ended
/// or failed is dropped; other frames are ignored.
pub proof fn every_frame_has_its_answer(frame: Frame)
    ensures
        step_for(frame) is TakeEvent <==> frame is Text,
        step_for(frame) is Pong <==> frame is Ping,
        step_for(frame) is Ignore <==> frame is Other,
        step_for(frame) is DropFailed <==> frame is Failure,
        step_for(frame) is DropClosed <==> frame is Close || frame is End,
{
}

/// The WebSocket is reached as the server is, over TLS where the server is, behind its own path.
pub proof fn the_websocket_is_where_the_server_is(rest: Seq<char>, base: Seq<char>)
    requires
        rest.len() > 0,
        rest.last() != '/',
        base.len() > 0,
        base.last() != '/',
        !begins_with(base, "http://"@),
        !begins_with(base, "https://"@),
    ensures
        websocket_url_of("https://"@ + rest) == "wss://"@ + rest + "/api/v4/websocket"@,
        websocket_url_of("http://"@ + rest) == "ws://"@ + rest + "/api/v4/websocket"@,
        websocket_url_of(base) == base + "/api/v4/websocket"@,
{
    reveal_strlit("https://");
    reveal_strlit("http://");
    let secure = "https://"@ + rest;
    let plain = "http://"@ + rest;
    assert(secure.last() == rest.last());
    assert(plain.last() == rest.last());
    assert(secure.subrange(0, 8) =~= "https://"@);
    assert(secure.skip(8) =~= rest);
    assert(plain.subrange(0, 7) =~= "http://"@);
    assert(plain.skip(7) =~= rest);
    if begins_with(plain, "https://"@) {
        assert(plain.subrange(0, 8)[4] == 's');
        assert(plain[4] == ':');
    }
}

/// The texts that are kept stay in their order.
pub proof fn kept_texts_stay_in_order(list: Seq<Seq<char>>, next: Seq<char>, text: Seq<char>)
    ensures
        without_text(Seq::empty(), text) == Seq::<Seq<char>>::empty(),
        without_text(list.push(next), text) == (if next == text {
            without_text(list, text)
        } else {
            without_text(list, text).push(next)
        }),
{
    reveal(Seq::filter);
    assert(list.push(next).drop_last() =~= list);
}

/// Stored rows are an inbox where each has an id above those before it, and a post of its own.
pub proof fn rows_with_growing_ids_are_an_inbox(
    rows: Seq<InboxRow<Seq<char>, Seq<AttachedFile<Seq<char>>>>>,
    row: InboxRow<Seq<char>, Seq<AttachedFile<Seq<char>>>>,
)
    ensures
        is_inbox(Seq::<InboxRow<Seq<char>, Seq<AttachedFile<Seq<char>>>>>::empty()),
        is_inbox(rows.push(row)) <==> is_inbox(rows) && row.id > 0 && row.id > newest_id(rows)
            && forall|i: int|
            0 <= i < rows.len() ==> (#[trigger] rows[i]).event_id != row.event_id,
{
    let after = rows.push(row);
    let n = rows.len() as int;
    assert(after[n] == row);
    assert(forall|i: int| 0 <= i < n ==> after[i] == rows[i]);
    if is_inbox(after) {
        assert forall|i: int| 0 <= i < n implies 0 < (#[trigger] rows[i]).id && rows[i].id < row.id
            && rows[i].event_id != row.event_id by {
            assert(after[i] == rows[i]);
        }
        assert forall|i: int, j: int| 0 <= i < j < n implies (#[trigger] rows[i]).id < (
        #[trigger] rows[j]).id && rows[i].event_id != rows[j].event_id by {
            assert(after[i] == rows[i]);
            assert(after[j] == rows[j]);
        }
    }
}

} // verus!
