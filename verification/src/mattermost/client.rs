//! The Mattermost channel: what it knows, and what it asks of its driver, which does the calls.

use crate::mattermost::event::{
    event_of, is_accepted, mentioned_in, parse_event, redacted, screen, AttachedFile, Event,
    Identity, PostedData,
};
use crate::mattermost::inbox::{
    a_marked_thread_is_active, is_active, messages_after, messages_view, newest_id, place_of,
    rows_view, threads_view, with_event, with_thread, Inbox, RawMessage, MAX_ACTIVE_THREADS,
};
use crate::mattermost::receiver::is_posted;
use crate::mattermost::target::{
    parse_reply_target, reply_target, reply_target_post_id, target_post_id,
};
use crate::mattermost::thread::{accept, accepted_as};
use crate::mattermost::url::{websocket_url, websocket_url_of};
use crate::text::{
    begins_with, holds, maybe, same, strip_prefix, texts, trim, trim_end_char, trimmed,
    without_trailing,
};
use vstd::prelude::*;

verus! {

/// Reaction added to a channel @mention while the agent works on it.
pub const WORKING_EMOJI: &'static str = "hourglass_flowing_sand";

/// Reaction that replaces it once the run has been delivered.
pub const DONE_EMOJI: &'static str = "white_check_mark";

/// Reaction that replaces it when the run failed, timed out, or was stopped.
pub const FAILED_EMOJI: &'static str = "x";

/// The number of the first frame after the authentication challenge, which has the number 1.
pub const FIRST_SEQ: u64 = 2;

/// A Mattermost channel.
#[derive(Debug)]
pub struct Mattermost {
    pub token: String,
    pub base_url: String,
    pub websocket_url: String,
    /// Where the inbox is stored.
    pub inbox_path: String,
    pub allow_user_ids: Vec<String>,
    pub inbox: Inbox,
    /// The number of the next frame.
    pub seq: u64,
    /// Post ids already given a "working" reaction, to react at most once.
    pub reacted: Vec<String>,
    pub identity: Option<Identity<String>>,
    /// The last failure of the receiver, until it is reported.
    pub last_error: Option<String>,
}

/// Where a message goes. The text type `S` is `String` in the program and a sequence of characters
/// in contracts.
#[derive(Debug)]
pub enum Destination<S> {
    /// A thread of a channel.
    Thread { channel: S, root: S },
    /// A channel, at its top level.
    Channel(S),
    /// The direct messages with a user.
    User(S),
}

impl View for Destination<String> {
    type V = Destination<Seq<char>>;

    open spec fn view(&self) -> Destination<Seq<char>> {
        match self {
            Destination::Thread { channel, root } => Destination::Thread {
                channel: channel@,
                root: root@,
            },
            Destination::Channel(channel) => Destination::Channel(channel@),
            Destination::User(user) => Destination::User(user@),
        }
    }
}

/// A post to be created.
#[derive(Debug)]
pub struct NewPost<S> {
    pub channel_id: S,
    pub message: S,
    pub root: Option<S>,
}

impl View for NewPost<String> {
    type V = NewPost<Seq<char>>;

    open spec fn view(&self) -> NewPost<Seq<char>> {
        NewPost {
            channel_id: self.channel_id@,
            message: self.message@,
            root: maybe(self.root),
        }
    }
}

/// What is done to send a message.
#[derive(Debug)]
pub enum SendStep<S> {
    /// Create the post.
    Post(NewPost<S>),
    /// Open the direct messages with this user; the post goes to the channel that this gives.
    OpenDirect(S),
}

impl View for SendStep<String> {
    type V = SendStep<Seq<char>>;

    open spec fn view(&self) -> SendStep<Seq<char>> {
        match self {
            SendStep::Post(post) => SendStep::Post(post@),
            SendStep::OpenDirect(user) => SendStep::OpenDirect(user@),
        }
    }
}

/// A `user_typing` frame.
#[derive(Debug)]
pub struct TypingFrame<S> {
    pub seq: u64,
    pub channel_id: S,
    pub parent_id: S,
}

impl View for TypingFrame<String> {
    type V = TypingFrame<Seq<char>>;

    open spec fn view(&self) -> TypingFrame<Seq<char>> {
        TypingFrame {
            seq: self.seq,
            channel_id: self.channel_id@,
            parent_id: self.parent_id@,
        }
    }
}

/// What came of asking for messages.
#[derive(Debug)]
pub enum PollStep {
    Messages(Vec<RawMessage<String, Vec<AttachedFile<String>>>>),
    Failed(String),
    /// Wait until the receiver has something.
    Wait,
}

/// Where a target leads, given the users on the allow list. A channel is an operator-configured
/// destination and is not held against the list.
pub open spec fn destination_of(target: Seq<char>, allowed: Seq<Seq<char>>) -> Result<
    Destination<Seq<char>>,
    &'static str,
> {
    if reply_target(target) is Some {
        let (channel, root) = reply_target(target)->0;
        Ok(Destination::Thread { channel, root })
    } else if begins_with(target, "channel:"@) {
        let channel = trimmed(target.skip("channel:"@.len() as int));
        if channel.len() == 0 {
            Err("invalid Mattermost channel target")
        } else {
            Ok(Destination::Channel(channel))
        }
    } else if begins_with(target, "user:"@) {
        let user = trimmed(target.skip("user:"@.len() as int));
        if allowed.contains(user) {
            Ok(Destination::User(user))
        } else {
            Err("Mattermost delivery user is not allowlisted")
        }
    } else {
        Err("invalid Mattermost delivery target")
    }
}

/// What a destination that was found or refused holds.
pub open spec fn destination_view(found: Result<Destination<String>, &'static str>) -> Result<
    Destination<Seq<char>>,
    &'static str,
> {
    match found {
        Ok(destination) => Ok(destination@),
        Err(error) => Err(error),
    }
}

/// What is done to send a message to a destination.
pub open spec fn step_to(destination: Destination<Seq<char>>, text: Seq<char>) -> SendStep<
    Seq<char>,
> {
    match destination {
        Destination::Thread { channel, root } => SendStep::Post(
            NewPost { channel_id: channel, message: text, root: Some(root) },
        ),
        Destination::Channel(channel) => SendStep::Post(
            NewPost { channel_id: channel, message: text, root: None },
        ),
        Destination::User(user) => SendStep::OpenDirect(user),
    }
}

/// The post that a target has a working reaction for: the one that triggered the run, in a channel.
pub open spec fn post_to_mark(target: Seq<char>) -> Option<Seq<char>> {
    if reply_target(target) is Some {
        target_post_id(target)
    } else {
        None
    }
}

/// Tells the other texts from one.
pub open spec fn other_than(text: Seq<char>) -> spec_fn(Seq<char>) -> bool {
    |other: Seq<char>| other != text
}

/// The list without a text.
pub open spec fn without_text(list: Seq<Seq<char>>, text: Seq<char>) -> Seq<Seq<char>> {
    list.filter(other_than(text))
}

/// The path of the working reaction of a user to a post.
pub open spec fn reaction_path_of(user_id: Seq<char>, post_id: Seq<char>) -> Seq<char> {
    "/api/v4/users/"@ + user_id + "/posts/"@ + post_id + "/reactions/"@ + WORKING_EMOJI@
}

/// Names the working reaction of a user to a post in the REST API.
pub fn reaction_path(user_id: &str, post_id: &str) -> (path: String)
    ensures
        path@ == reaction_path_of(user_id@, post_id@),
{
    let mut path = "/api/v4/users/".to_owned();
    path.append(user_id);
    path.append("/posts/");
    path.append(post_id);
    path.append("/reactions/");
    path.append(WORKING_EMOJI);
    path
}

/// The two members of the direct messages with a user: the bot, and the user.
pub fn direct_members(identity: &Identity<String>, user: &str) -> (members: (String, String))
    ensures
        members.0@ == identity@.user_id,
        members.1@ == trimmed(user@),
{
    (identity.user_id.clone(), trim(user).to_owned())
}

/// Makes the post for the direct messages that the server has opened, if it has named them.
pub fn direct_post(channel_id: Option<String>, text: &str) -> (post: Result<
    NewPost<String>,
    &'static str,
>)
    ensures
        post is Ok <==> channel_id is Some,
        post matches Ok(p) ==> p@ == (NewPost {
            channel_id: channel_id->0@,
            message: text@,
            root: None,
        }),
        post matches Err(error) ==> error == "Mattermost channels/direct omitted id",
{
    match channel_id {
        Some(channel_id) => Ok(NewPost { channel_id, message: text.to_owned(), root: None }),
        None => Err("Mattermost channels/direct omitted id"),
    }
}

/// Trims every text of a list.
fn trim_all(list: &Vec<String>) -> (out: Vec<String>)
    ensures
        texts(out@) == texts(list@).map_values(|text: Seq<char>| trimmed(text)),
{
    let ghost all = texts(list@).map_values(|text: Seq<char>| trimmed(text));
    let mut out: Vec<String> = Vec::new();
    let mut i: usize = 0;
    assert(texts(out@) =~= all.take(0));
    while i < list.len()
        invariant
            i <= list@.len(),
            all == texts(list@).map_values(|text: Seq<char>| trimmed(text)),
            texts(out@) == all.take(i as int),
        decreases list@.len() - i,
    {
        let ghost before = texts(out@);
        let text = trim(list[i].as_str()).to_owned();
        out.push(text);
        assert(texts(out@) =~= before.push(text@));
        assert(texts(list@)[i as int] == list@[i as int]@);
        assert(all.take(i + 1) =~= before.push(text@));
        i = i + 1;
    }
    assert(all.take(i as int) =~= all);
    out
}

/// Leaves a text out of a list.
fn leave_out(list: &Vec<String>, text: &str) -> (kept: Vec<String>)
    ensures
        texts(kept@) == without_text(texts(list@), text@),
{
    let ghost all = texts(list@);
    let ghost test = other_than(text@);
    let mut kept: Vec<String> = Vec::new();
    let mut i: usize = 0;
    proof {
        reveal(Seq::filter);
        assert(all.take(0).filter(test) =~= Seq::<Seq<char>>::empty());
    }
    assert(texts(kept@) =~= all.take(0).filter(test));
    while i < list.len()
        invariant
            i <= list@.len(),
            all == texts(list@),
            test == other_than(text@),
            texts(kept@) == all.take(i as int).filter(test),
        decreases list@.len() - i,
    {
        let ghost before = texts(kept@);
        proof {
            reveal(Seq::filter);
            assert(all.take(i + 1).drop_last() =~= all.take(i as int));
            assert(all.take(i + 1).last() == list@[i as int]@);
        }
        if !same(list[i].as_str(), text) {
            kept.push(list[i].clone());
            assert(texts(kept@) =~= before.push(list@[i as int]@));
        }
        i = i + 1;
    }
    assert(all.take(i as int) =~= all);
    kept
}

impl Mattermost {
    /// What holds of every channel that the functions here give.
    pub open spec fn wf(self) -> bool {
        self.inbox.wf()
    }

    /// Makes a channel for a server, with the users that it answers to. Its inbox is empty until
    /// the stored one is taken up.
    pub fn new(
        base_url: String,
        token: String,
        allow_user_ids: Vec<String>,
        state_path: &str,
    ) -> (mattermost: Mattermost)
        ensures
            mattermost.wf(),
            mattermost.token@ == token@,
            mattermost.base_url@ == without_trailing(trimmed(base_url@), '/'),
            mattermost.websocket_url@ == websocket_url_of(mattermost.base_url@),
            mattermost.inbox_path@ == state_path@ + ".mattermost-inbox.db"@,
            texts(mattermost.allow_user_ids@) == texts(allow_user_ids@).map_values(
                |user: Seq<char>| trimmed(user),
            ),
            mattermost.inbox.rows@.len() == 0,
            mattermost.inbox.threads@.len() == 0,
            mattermost.seq == FIRST_SEQ,
            mattermost.reacted@.len() == 0,
            mattermost.identity is None,
            mattermost.last_error is None,
    {
        let base_url = trim_end_char(trim(base_url.as_str()), '/').to_owned();
        let mut inbox_path = state_path.to_owned();
        inbox_path.append(".mattermost-inbox.db");
        Mattermost {
            token,
            websocket_url: websocket_url(base_url.as_str()),
            base_url,
            inbox_path,
            allow_user_ids: trim_all(&allow_user_ids),
            inbox: Inbox::new(),
            seq: FIRST_SEQ,
            reacted: Vec::new(),
            identity: None,
            last_error: None,
        }
    }

    /// Whether a user is on the allow list.
    pub fn allows_user(&self, user: &str) -> (yes: bool)
        ensures
            yes == texts(self.allow_user_ids@).contains(trimmed(user@)),
    {
        holds(&self.allow_user_ids, trim(user))
    }

    /// Gives the messages after a cursor; or the last failure of the receiver, once; or asks to
    /// wait.
    pub fn poll(&mut self, since: i64) -> (step: PollStep)
        ensures
            ({
                let messages = messages_after(
                    rows_view(old(self).inbox.rows@),
                    since as int,
                    old(self).inbox.rows@.len() as int,
                );
                match step {
                    PollStep::Messages(found) => messages.len() > 0 && messages_view(found@)
                        == messages && *final(self) == *old(self),
                    PollStep::Failed(error) => messages.len() == 0 && old(self).last_error == Some(
                        error,
                    ) && *final(self) == (Mattermost { last_error: None, ..*old(self) }),
                    PollStep::Wait => messages.len() == 0 && old(self).last_error is None
                        && *final(self) == *old(self),
                }
            }),
    {
        let messages = self.inbox.after(since);
        assert(messages_view(messages@).len() == messages@.len());
        if messages.len() > 0 {
            return PollStep::Messages(messages);
        }
        match self.last_error.take() {
            Some(error) => PollStep::Failed(error),
            None => PollStep::Wait,
        }
    }

    /// The cursor of the newest post.
    pub fn latest_cursor(&self) -> (cursor: i64)
        ensures
            cursor == newest_id(rows_view(self.inbox.rows@)),
    {
        self.inbox.latest_cursor()
    }

    /// Finds the key of the conversation and the target of the reply of a message that goes on to
    /// an agent.
    pub fn accept(&self, message: &RawMessage<String, Vec<AttachedFile<String>>>) -> (accepted:
        Option<(String, String)>)
        ensures
            ({
                let found = accepted_as(
                    "mattermost"@,
                    message@,
                    texts(self.allow_user_ids@).contains(trimmed(message@.handle)),
                );
                match accepted {
                    Some((key, target)) => found == Some((key@, target@)),
                    None => found is None,
                }
            }),
    {
        accept("mattermost", message, self.allows_user(message.handle.as_str()))
    }

    /// Finds where a target leads.
    pub fn resolve_target(&self, target: &str) -> (found: Result<Destination<String>, &'static str>)
        ensures
            destination_view(found) == destination_of(target@, texts(self.allow_user_ids@)),
    {
        if let Some((channel, root)) = parse_reply_target(target) {
            return Ok(Destination::Thread { channel: channel.to_owned(), root: root.to_owned() });
        }
        if let Some(channel) = strip_prefix(target, "channel:") {
            let channel = trim(channel);
            if channel.is_empty() {
                return Err("invalid Mattermost channel target");
            }
            return Ok(Destination::Channel(channel.to_owned()));
        }
        match strip_prefix(target, "user:") {
            Some(user) => {
                if self.allows_user(user) {
                    Ok(Destination::User(trim(user).to_owned()))
                } else {
                    Err("Mattermost delivery user is not allowlisted")
                }
            },
            None => Err("invalid Mattermost delivery target"),
        }
    }

    /// Decides how a message is sent to a target.
    pub fn send_message(&self, target: &str, text: &str) -> (step: Result<
        SendStep<String>,
        &'static str,
    >)
        ensures
            match destination_of(target@, texts(self.allow_user_ids@)) {
                Ok(destination) => step matches Ok(s) && s@ == step_to(destination, text@),
                Err(error) => step matches Err(e) && e == error,
            },
    {
        match self.resolve_target(target) {
            Ok(destination) => {
                let step = match destination {
                    Destination::Thread { channel, root } => SendStep::Post(
                        NewPost { channel_id: channel, message: text.to_owned(), root: Some(root) },
                    ),
                    Destination::Channel(channel) => SendStep::Post(
                        NewPost { channel_id: channel, message: text.to_owned(), root: None },
                    ),
                    Destination::User(user) => SendStep::OpenDirect(user),
                };
                Ok(step)
            },
            Err(error) => Err(error),
        }
    }

    /// Notes that a post was created. Its thread is remembered, so that later replies from
    /// allowlisted users are accepted without a fresh @mention.
    pub fn message_sent(&mut self, post: &NewPost<String>)
        ensures
            threads_view(final(self).inbox.threads@) == match post@.root {
                Some(root) => with_thread(
                    threads_view(old(self).inbox.threads@),
                    post@.channel_id,
                    root,
                ),
                None => threads_view(old(self).inbox.threads@),
            },
            *final(self) == (Mattermost {
                inbox: Inbox { threads: final(self).inbox.threads, ..old(self).inbox },
                ..*old(self)
            }),
    {
        if let Some(root) = &post.root {
            self.inbox.mark_active_thread(post.channel_id.as_str(), root.as_str());
        }
    }

    /// Makes a `user_typing` frame for a reply target; there is none for another target. The
    /// numbers of frames count up, and start again after the last.
    pub fn send_typing(&mut self, target: &str) -> (frame: Option<TypingFrame<String>>)
        ensures
            match reply_target(target@) {
                Some((channel, root)) => frame matches Some(f) && f@ == (TypingFrame {
                    seq: old(self).seq,
                    channel_id: channel,
                    parent_id: root,
                }) && *final(self) == (Mattermost {
                    seq: (if old(self).seq == u64::MAX {
                        0
                    } else {
                        old(self).seq + 1
                    }) as u64,
                    ..*old(self)
                }),
                None => frame is None && *final(self) == *old(self),
            },
    {
        match parse_reply_target(target) {
            Some((channel, root)) => {
                let seq: u64 = self.seq;
                self.seq = if seq == u64::MAX {
                    0
                } else {
                    seq + 1
                };
                Some(
                    TypingFrame {
                        seq,
                        channel_id: channel.to_owned(),
                        parent_id: root.to_owned(),
                    },
                )
            },
            None => None,
        }
    }

    /// Gives the post that is to get the working reaction: the one that triggered the run, unless
    /// it has the reaction already.
    pub fn react_working(&self, target: &str) -> (post_id: Option<String>)
        ensures
            maybe(post_id) == match post_to_mark(target@) {
                Some(id) => if texts(self.reacted@).contains(id) {
                    None
                } else {
                    Some(id)
                },
                None => None,
            },
    {
        if parse_reply_target(target).is_none() {
            return None;
        }
        match reply_target_post_id(target) {
            Some(id) => {
                if holds(&self.reacted, id) {
                    None
                } else {
                    Some(id.to_owned())
                }
            },
            None => None,
        }
    }

    /// Notes that a post has got the working reaction.
    pub fn reaction_added(&mut self, post_id: &str)
        ensures
            texts(final(self).reacted@) == (if texts(old(self).reacted@).contains(post_id@) {
                texts(old(self).reacted@)
            } else {
                texts(old(self).reacted@).push(post_id@)
            }),
            *final(self) == (Mattermost { reacted: final(self).reacted, ..*old(self) }),
    {
        if !holds(&self.reacted, post_id) {
            let ghost before = texts(self.reacted@);
            self.reacted.push(post_id.to_owned());
            assert(texts(self.reacted@) =~= before.push(post_id@));
        }
    }

    /// Gives the post whose working reaction is swapped once the run has finished, and the
    /// reaction that takes its place. There is none for direct messages and scheduled targets.
    pub fn finish_working(&self, target: &str, delivered: bool) -> (swap: Option<
        (String, &'static str),
    >)
        ensures
            match target_post_id(target@) {
                Some(id) => swap matches Some((post_id, emoji)) && post_id@ == id && emoji == (
                if delivered {
                    DONE_EMOJI
                } else {
                    FAILED_EMOJI
                }),
                None => swap is None,
            },
    {
        match reply_target_post_id(target) {
            Some(id) => {
                let emoji = if delivered {
                    DONE_EMOJI
                } else {
                    FAILED_EMOJI
                };
                Some((id.to_owned(), emoji))
            },
            None => None,
        }
    }

    /// Notes that the working reaction of a post was swapped.
    pub fn reaction_swapped(&mut self, post_id: &str)
        ensures
            texts(final(self).reacted@) == without_text(texts(old(self).reacted@), post_id@),
            *final(self) == (Mattermost { reacted: final(self).reacted, ..*old(self) }),
    {
        let kept = leave_out(&self.reacted, post_id);
        self.reacted = kept;
    }

    /// Takes the bot's own user from the answer of the server. The name may be missing, the id may
    /// not.
    pub fn learn_identity(&mut self, id: Option<String>, username: Option<String>) -> (learned:
        Result<(), &'static str>)
        ensures
            learned is Ok <==> id is Some,
            learned matches Err(error) ==> error == "Mattermost users/me omitted id"
                && *final(self) == *old(self),
            learned is Ok ==> (final(self).identity matches Some(identity) && identity@
                == (Identity {
                user_id: id->0@,
                username: match maybe(username) {
                    Some(name) => name,
                    None => Seq::empty(),
                },
            })) && *final(self) == (Mattermost { identity: final(self).identity, ..*old(self) }),
    {
        match id {
            Some(user_id) => {
                let username = match username {
                    Some(username) => username,
                    None => {
                        let none = String::new();
                        assert(none@ =~= Seq::<char>::empty());
                        none
                    },
                };
                self.identity = Some(Identity { user_id, username });
                Ok(())
            },
            None => Err("Mattermost users/me omitted id"),
        }
    }

    /// Takes in an event. A new post is put in the inbox, without its content where it does not
    /// reach the agent. Tells whether it was a post; fails where the inbox has no ids left.
    pub fn handle_event(
        &mut self,
        name: &Option<String>,
        data: &Option<PostedData<String, Vec<AttachedFile<String>>>>,
        identity: &Identity<String>,
    ) -> (taken: Result<bool, &'static str>)
        requires
            old(self).wf(),
        ensures
            final(self).wf(),
            ({
                let post = if maybe(*name) == Some("posted"@) && data is Some {
                    event_of(data->0@, identity@, mentioned_in(data->0@))
                } else {
                    None
                };
                match post {
                    None => taken == Ok::<bool, &'static str>(false) && *final(self) == *old(self),
                    Some(event) => {
                        let threads = threads_view(old(self).inbox.threads@);
                        let accepted = is_accepted(
                            event,
                            is_active(threads, event.channel, event.root),
                            texts(old(self).allow_user_ids@).contains(event.user),
                        );
                        let rows = rows_view(old(self).inbox.rows@);
                        let full = place_of(rows, event.event_id) is None && newest_id(rows)
                            == i64::MAX;
                        &&& taken == (if full {
                            Err("Mattermost inbox is full")
                        } else {
                            Ok::<bool, &'static str>(true)
                        })
                        &&& rows_view(final(self).inbox.rows@) == (if full {
                            rows
                        } else {
                            with_event(rows, redacted(event, accepted))
                        })
                        &&& *final(self) == (Mattermost {
                            inbox: Inbox {
                                rows: final(self).inbox.rows,
                                ..old(self).inbox
                            },
                            ..*old(self)
                        })
                    },
                }
            }),
    {
        if !is_posted(name) {
            return Ok(false);
        }
        let data = match data {
            Some(data) => data,
            None => return Ok(false),
        };
        let mut event = match parse_event(data, identity) {
            Some(event) => event,
            None => return Ok(false),
        };
        let active = self.inbox.is_active_thread(event.channel.as_str(), event.root.as_str());
        let allowed = holds(&self.allow_user_ids, event.user.as_str());
        screen(&mut event, active, allowed);
        match self.inbox.insert(&event) {
            Some(_) => Ok(true),
            None => Err("Mattermost inbox is full"),
        }
    }
}

/// A post gets the working reaction at most once while the agent works: once it is noted, it is not
/// asked for again, until the reaction is swapped.
pub proof fn a_post_is_reacted_to_once(reacted: Seq<Seq<char>>, post_id: Seq<char>)
    ensures
        (if reacted.contains(post_id) {
            reacted
        } else {
            reacted.push(post_id)
        }).contains(post_id),
        !without_text(reacted, post_id).contains(post_id),
{
    if !reacted.contains(post_id) {
        let after = reacted.push(post_id);
        assert(after[after.len() - 1] == post_id);
    }
    assert forall|i: int| 0 <= i < without_text(reacted, post_id).len() implies #[trigger] without_text(
        reacted,
        post_id,
    )[i] != post_id by {
        reacted.lemma_filter_pred(other_than(post_id), i);
    }
}

/// A reply opens its thread: a later post in the thread, from an allowlisted user and of a
/// supported kind, reaches the agent without a fresh mention.
pub proof fn a_reply_opens_its_thread(
    threads: Seq<(Seq<char>, Seq<char>)>,
    channel: Seq<char>,
    root: Seq<char>,
    event: Event<Seq<char>, Seq<AttachedFile<Seq<char>>>>,
)
    requires
        threads.len() <= MAX_ACTIVE_THREADS,
        root.len() > 0,
        event.channel == channel,
        event.root == root,
        event.is_supported,
        !event.is_from_me,
    ensures
        is_accepted(
            event,
            is_active(with_thread(threads, channel, root), event.channel, event.root),
            true,
        ),
{
    a_marked_thread_is_active(threads, channel, root, 0);
}

/// A post that does not reach the agent leaves no content behind: a user who is not on the allow
/// list, the bot itself, a system post, and a channel post without mention outside the threads of
/// the bot.
pub proof fn an_ignored_post_leaves_no_content(
    event: Event<Seq<char>, Seq<AttachedFile<Seq<char>>>>,
    in_active_thread: bool,
    is_allowed: bool,
)
    requires
        !is_allowed || event.is_from_me || !event.is_supported || (event.channel_type != "D"@
            && !event.is_mention && !in_active_thread),
    ensures
        ({
            let kept = redacted(event, is_accepted(event, in_active_thread, is_allowed));
            kept.text.len() == 0 && kept.files.len() == 0 && kept.event_id == event.event_id
        }),
{
}

} // verus!
