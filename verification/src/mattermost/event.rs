//! `posted` events: what a post is to the bot.

use crate::chunk::concatenated;
use crate::text::{
    after_last, ascii_lowered, chars_of, find_after_last, holds, is_plain_text, maybe, occurs_at,
    same, same_ignoring_ascii_case, stands_at, texts, trim, trimmed,
};
use vstd::prelude::*;

verus! {

/// The bot's own user. The text type `S` is `String` in the program and a sequence of characters
/// in contracts.
#[derive(Debug)]
pub struct Identity<S> {
    pub user_id: S,
    pub username: S,
}

impl View for Identity<String> {
    type V = Identity<Seq<char>>;

    open spec fn view(&self) -> Identity<Seq<char>> {
        Identity { user_id: self.user_id@, username: self.username@ }
    }
}

/// A file that is attached to a post.
#[derive(Debug)]
pub struct AttachedFile<S> {
    pub id: S,
    pub filename: S,
}

impl View for AttachedFile<String> {
    type V = AttachedFile<Seq<char>>;

    open spec fn view(&self) -> AttachedFile<Seq<char>> {
        AttachedFile { id: self.id@, filename: self.filename@ }
    }
}

/// What a list of files holds.
pub open spec fn files_view(files: Seq<AttachedFile<String>>) -> Seq<AttachedFile<Seq<char>>> {
    files.map_values(|file: AttachedFile<String>| file@)
}

/// Copies a list of files.
pub fn copy_files(files: &Vec<AttachedFile<String>>) -> (copy: Vec<AttachedFile<String>>)
    ensures
        files_view(copy@) == files_view(files@),
{
    let mut copy: Vec<AttachedFile<String>> = Vec::new();
    let mut i: usize = 0;
    while i < files.len()
        invariant
            i <= files@.len(),
            files_view(copy@) == files_view(files@).take(i as int),
        decreases files@.len() - i,
    {
        let ghost before = files_view(copy@);
        let file = AttachedFile { id: files[i].id.clone(), filename: files[i].filename.clone() };
        copy.push(file);
        assert(files_view(copy@) =~= before.push(file@));
        assert(files_view(files@).take(i + 1) =~= before.push(file@));
        i = i + 1;
    }
    assert(files_view(files@).take(i as int) =~= files_view(files@));
    copy
}

/// A post. `L` is the type of a list of files.
#[derive(Debug)]
pub struct Post<S, L> {
    pub id: S,
    pub channel_id: S,
    pub user_id: S,
    pub message: S,
    /// The post that roots the thread; empty for a top-level post.
    pub root_id: S,
    /// Empty for an ordinary post; otherwise what kind of system post it is.
    pub kind: S,
    /// The attached files that are on the allow list.
    pub files: L,
}

impl View for Post<String, Vec<AttachedFile<String>>> {
    type V = Post<Seq<char>, Seq<AttachedFile<Seq<char>>>>;

    open spec fn view(&self) -> Post<Seq<char>, Seq<AttachedFile<Seq<char>>>> {
        Post {
            id: self.id@,
            channel_id: self.channel_id@,
            user_id: self.user_id@,
            message: self.message@,
            root_id: self.root_id@,
            kind: self.kind@,
            files: files_view(self.files@),
        }
    }
}

/// The data of a `posted` event, as far as it could be read.
#[derive(Debug)]
pub struct PostedData<S, L> {
    /// "D" direct, "G" group, "O" public, "P" private.
    pub channel_type: Option<S>,
    pub post: Option<Post<S, L>>,
    /// The mentioned user ids, as an array in JSON.
    pub mentions: Option<S>,
}

impl View for PostedData<String, Vec<AttachedFile<String>>> {
    type V = PostedData<Seq<char>, Seq<AttachedFile<Seq<char>>>>;

    open spec fn view(&self) -> PostedData<Seq<char>, Seq<AttachedFile<Seq<char>>>> {
        PostedData {
            channel_type: maybe(self.channel_type),
            post: match self.post {
                Some(post) => Some(post@),
                None => None,
            },
            mentions: maybe(self.mentions),
        }
    }
}

/// A post as the inbox takes it in.
#[derive(Debug)]
pub struct Event<S, L> {
    pub event_id: S,
    /// "D" direct, "G" group, "O" public, "P" private.
    pub channel_type: S,
    pub channel: S,
    pub user: S,
    pub text: S,
    /// The post that roots the thread.
    pub root: S,
    pub files: L,
    /// Whether the bot is mentioned.
    pub is_mention: bool,
    pub is_from_me: bool,
    pub is_supported: bool,
}

impl View for Event<String, Vec<AttachedFile<String>>> {
    type V = Event<Seq<char>, Seq<AttachedFile<Seq<char>>>>;

    open spec fn view(&self) -> Event<Seq<char>, Seq<AttachedFile<Seq<char>>>> {
        Event {
            event_id: self.event_id@,
            channel_type: self.channel_type@,
            channel: self.channel@,
            user: self.user@,
            text: self.text@,
            root: self.root@,
            files: files_view(self.files@),
            is_mention: self.is_mention,
            is_from_me: self.is_from_me,
            is_supported: self.is_supported,
        }
    }
}

/// Whether a character can stand in a handle, other than a dot between two of them.
pub open spec fn is_handle_char(c: char) -> bool {
    'a' <= c && c <= 'z' || 'A' <= c && c <= 'Z' || '0' <= c && c <= '9' || c == '_' || c == '-'
}

/// Whether a handle that runs up to a position ends there: nothing behind it goes on with it.
pub open spec fn handle_ends(s: Seq<char>, at: int) -> bool {
    at >= s.len() || !(is_handle_char(s[at]) || s[at] == '.' && at + 1 < s.len() && is_handle_char(
        s[at + 1],
    ))
}

/// Whether a user is mentioned at a position: the token of the user stands there, and no longer
/// handle.
pub open spec fn is_mention_at(s: Seq<char>, token: Seq<char>, at: int) -> bool {
    occurs_at(s, token, at) && handle_ends(s, at + token.len())
}

/// Whether a user is mentioned anywhere in a text.
pub open spec fn holds_mention(s: Seq<char>, token: Seq<char>) -> bool {
    exists|at: int| #[trigger] is_mention_at(s, token, at)
}

/// The first position at or after `from` at which a user is mentioned.
pub open spec fn first_mention(s: Seq<char>, token: Seq<char>, from: int) -> Option<int>
    decreases s.len() - from,
{
    if from >= s.len() {
        None
    } else if is_mention_at(s, token, from) {
        Some(from)
    } else {
        first_mention(s, token, from + 1)
    }
}

/// `first_mention` finds the first such position, if there is one.
pub proof fn first_mention_is_first(s: Seq<char>, token: Seq<char>, from: int)
    requires
        token.len() > 0,
    ensures
        first_mention(s, token, from) matches Some(at) ==> from <= at && at + token.len() <= s.len()
            && is_mention_at(s, token, at) && (forall|i: int|
            from <= i < at ==> !#[trigger] is_mention_at(s, token, i)),
        first_mention(s, token, from) is None ==> forall|i: int|
            from <= i ==> !#[trigger] is_mention_at(s, token, i),
    decreases s.len() - from,
{
    if from < s.len() && !is_mention_at(s, token, from) {
        first_mention_is_first(s, token, from + 1);
    }
}

/// Searching from a position on is searching the rest of the text.
proof fn first_mention_in_rest(s: Seq<char>, token: Seq<char>, start: int, from: int)
    requires
        token.len() > 0,
        0 <= start <= s.len(),
        0 <= from,
    ensures
        first_mention(s, token, start + from) == match first_mention(s.skip(start), token, from) {
            Some(at) => Some(start + at),
            None => None,
        },
    decreases s.len() - start - from,
{
    let rest = s.skip(start);
    if start + from < s.len() {
        let n = token.len();
        if start + from + n <= s.len() {
            assert(s.subrange(start + from, start + from + n) =~= rest.subrange(from, from + n));
        }
        assert(is_mention_at(s, token, start + from) == is_mention_at(rest, token, from));
        first_mention_in_rest(s, token, start, from + 1);
    }
}

/// A text without the mentions of a user, from a position on.
pub open spec fn removed(s: Seq<char>, token: Seq<char>, pos: int) -> Seq<char>
    decreases s.len() - pos,
    when 0 <= pos <= s.len() && token.len() > 0
{
    proof {
        first_mention_is_first(s, token, pos);
    }
    match first_mention(s, token, pos) {
        Some(at) => s.subrange(pos, at) + removed(s, token, at + token.len()),
        None => s.skip(pos),
    }
}

/// The pieces of a text between the mentions of a user, from a position on.
pub open spec fn pieces_between(s: Seq<char>, token: Seq<char>, pos: int) -> Seq<Seq<char>>
    decreases s.len() - pos,
    when 0 <= pos <= s.len() && token.len() > 0
{
    proof {
        first_mention_is_first(s, token, pos);
    }
    match first_mention(s, token, pos) {
        Some(at) => seq![s.subrange(pos, at)] + pieces_between(s, token, at + token.len()),
        None => seq![s.skip(pos)],
    }
}

/// What is left of a text are the pieces between the mentions, and no piece mentions the user.
pub proof fn kept_pieces_hold_no_mention(s: Seq<char>, name: Seq<char>, pos: int)
    requires
        0 <= pos <= s.len(),
    ensures
        ({
            let token = seq!['@'] + name;
            &&& removed(s, token, pos) == concatenated(pieces_between(s, token, pos))
            &&& forall|i: int|
                0 <= i < pieces_between(s, token, pos).len() ==> !holds_mention(
                    #[trigger] pieces_between(s, token, pos)[i],
                    token,
                )
        }),
    decreases s.len() - pos,
{
    let token = seq!['@'] + name;
    first_mention_is_first(s, token, pos);
    let pieces = pieces_between(s, token, pos);
    let end = match first_mention(s, token, pos) {
        Some(at) => at,
        None => s.len() as int,
    };
    let piece = s.subrange(pos, end);
    assert(end < s.len() ==> s[end] == '@') by {
        if end < s.len() {
            assert(s.subrange(end, end + token.len())[0] == token[0]);
        }
    }
    assert(!holds_mention(piece, token)) by {
        if holds_mention(piece, token) {
            let at = choose|at: int| #[trigger] is_mention_at(piece, token, at);
            let n = token.len();
            assert(s.subrange(pos + at, pos + at + n) =~= piece.subrange(at, at + n));
            assert(handle_ends(s, pos + at + n)) by {
                let i = at + n;
                if i < piece.len() {
                    assert(piece[i] == s[pos + i]);
                    if i + 1 < piece.len() {
                        assert(piece[i + 1] == s[pos + i + 1]);
                    }
                }
            }
            assert(is_mention_at(s, token, pos + at));
        }
    }
    match first_mention(s, token, pos) {
        Some(at) => {
            let rest = pieces_between(s, token, at + token.len());
            kept_pieces_hold_no_mention(s, name, at + token.len());
            assert(pieces.skip(1) =~= rest);
            assert forall|i: int| 0 <= i < pieces.len() implies !holds_mention(
                #[trigger] pieces[i],
                token,
            ) by {
                if i > 0 {
                    assert(pieces[i] == rest[i - 1]);
                }
            }
        },
        None => {
            assert(piece =~= s.skip(pos));
            assert(pieces.skip(1) =~= Seq::<Seq<char>>::empty());
            assert(concatenated(Seq::<Seq<char>>::empty()) =~= Seq::<char>::empty());
            assert(concatenated(pieces) =~= piece);
        },
    }
}

/// A post without the mentions of a user, trimmed; as it is where the name is not known.
pub open spec fn without_mention(text: Seq<char>, username: Seq<char>) -> Seq<char> {
    if username.len() == 0 {
        text
    } else {
        trimmed(removed(text, seq!['@'] + username, 0))
    }
}

/// A post that does not mention the user is only trimmed; so is one with a longer handle that
/// starts like that of the user.
pub proof fn a_post_without_mention_is_kept(text: Seq<char>, username: Seq<char>)
    requires
        username.len() > 0,
        !holds_mention(text, seq!['@'] + username),
    ensures
        without_mention(text, username) == trimmed(text),
{
    let token = seq!['@'] + username;
    first_mention_is_first(text, token, 0);
    assert(text.skip(0) =~= text);
}

/// A mention is taken out wherever it stands: where the first one stands between `front` and
/// `back`, what is left is `front` and what is left of `back`.
pub proof fn a_mention_is_taken_out(front: Seq<char>, name: Seq<char>, back: Seq<char>)
    requires
        first_mention(front + (seq!['@'] + name) + back, seq!['@'] + name, 0) == Some(
            front.len() as int,
        ),
    ensures
        removed(front + (seq!['@'] + name) + back, seq!['@'] + name, 0) == front + removed(
            back,
            seq!['@'] + name,
            0,
        ),
{
    let token = seq!['@'] + name;
    let s = front + token + back;
    let end = (front.len() + token.len()) as int;
    assert(s.subrange(0, front.len() as int) =~= front);
    assert(s.skip(end) =~= back);
    removed_from_rest(s, token, end, 0);
}

/// Taking out from a position on is taking out of the rest of the text.
proof fn removed_from_rest(s: Seq<char>, token: Seq<char>, start: int, pos: int)
    requires
        token.len() > 0,
        0 <= start <= s.len(),
        0 <= pos <= s.len() - start,
    ensures
        removed(s, token, start + pos) == removed(s.skip(start), token, pos),
    decreases s.len() - start - pos,
{
    let rest = s.skip(start);
    first_mention_in_rest(s, token, start, pos);
    first_mention_is_first(rest, token, pos);
    match first_mention(rest, token, pos) {
        Some(at) => {
            assert(s.subrange(start + pos, start + at) =~= rest.subrange(pos, at));
            removed_from_rest(s, token, start, at + token.len());
        },
        None => {
            assert(s.skip(start + pos) =~= rest.skip(pos));
        },
    }
}

/// Tells whether a character can stand in a handle.
fn goes_on_with_handle(c: char) -> (yes: bool)
    ensures
        yes == is_handle_char(c),
{
    ('a' <= c && c <= 'z') || ('A' <= c && c <= 'Z') || ('0' <= c && c <= '9') || c == '_' || c
        == '-'
}

/// Finds the first mention of a user from a position on.
fn find_mention(chars: &Vec<char>, token: &Vec<char>, from: usize) -> (at: Option<usize>)
    requires
        token@.len() > 0,
        from <= chars@.len(),
    ensures
        match at {
            Some(i) => first_mention(chars@, token@, from as int) == Some(i as int) && i
                + token@.len() <= chars@.len(),
            None => first_mention(chars@, token@, from as int) is None,
        },
{
    let n: usize = chars.len();
    let mut i: usize = from;
    while i < n
        invariant
            from <= i <= n,
            n == chars@.len(),
            first_mention(chars@, token@, from as int) == first_mention(chars@, token@, i as int),
        decreases n - i,
    {
        if stands_at(chars, token, i) {
            let end: usize = i + token.len();
            let goes_on = end < n && (goes_on_with_handle(chars[end]) || (chars[end] == '.' && end
                + 1 < n && goes_on_with_handle(chars[end + 1])));
            if !goes_on {
                return Some(i);
            }
        }
        i = i + 1;
    }
    None
}

/// Removes the bot's own `@username` tokens from a post so the agent is not fed its own handle.
pub fn strip_mention(text: &str, username: &str) -> (stripped: String)
    ensures
        stripped@ == without_mention(text@, username@),
{
    if username.is_empty() {
        return text.to_owned();
    }
    let mut token: Vec<char> = Vec::new();
    token.push('@');
    let mut name = chars_of(username);
    token.append(&mut name);
    assert(token@ =~= seq!['@'] + username@);
    let chars = chars_of(text);
    let end: usize = chars.len();
    let mut out = String::new();
    let mut pos: usize = 0;
    assert(out@ + removed(text@, token@, 0) =~= removed(text@, token@, 0));
    loop
        invariant
            chars@ == text@,
            token@ == seq!['@'] + username@,
            username@.len() > 0,
            end == text@.len(),
            pos <= end,
            out@ + removed(text@, token@, pos as int) == removed(text@, token@, 0),
        decreases end - pos,
    {
        let ghost before = out@;
        match find_mention(&chars, &token, pos) {
            Some(at) => {
                proof {
                    first_mention_is_first(text@, token@, pos as int);
                }
                out.append(text.substring_char(pos, at));
                proof {
                    let piece = text@.subrange(pos as int, at as int);
                    let rest = removed(text@, token@, at + token@.len());
                    assert(before + piece + rest =~= before + (piece + rest));
                }
                pos = at + token.len();
            },
            None => {
                out.append(text.substring_char(pos, end));
                assert(text@.subrange(pos as int, end as int) =~= text@.skip(pos as int));
                return trim(out.as_str()).to_owned();
            },
        }
    }
}

/// The strings of an array in JSON, as `serde_json::from_str::<Vec<String>>` reads it.
pub uninterp spec fn json_strings(s: Seq<char>) -> Option<Seq<Seq<char>>>;

/// What an optional list of strings holds.
pub open spec fn maybe_texts(list: Option<Vec<String>>) -> Option<Seq<Seq<char>>> {
    match list {
        Some(strings) => Some(texts(strings@)),
        None => None,
    }
}

/// Calls `serde_json::from_str::<Vec<String>>`; nothing comes back where it gives an error. The
/// result is named `json_strings`. A plain text between quotation marks, alone in square brackets,
/// gives that text; square brackets with nothing between them give no text. What other texts give
/// is not stated.
#[verifier::external_body]
pub(crate) fn parse_json_strings(raw: &str) -> (list: Option<Vec<String>>)
    ensures
        maybe_texts(list) == json_strings(raw@),
        raw@ == seq!['[', ']'] ==> maybe_texts(list) == Some(Seq::<Seq<char>>::empty()),
        forall|text: Seq<char>|
            is_plain_text(text) && raw@ == #[trigger] json_of(text) ==> maybe_texts(list) == Some(
                seq![text],
            ),
{
    match serde_json::from_str::<Vec<String>>(raw) {
        Ok(list) => Some(list),
        Err(_) => None,
    }
}

/// An array in JSON with one plain text in it.
pub open spec fn json_of(text: Seq<char>) -> Seq<char> {
    seq!['[', '"'] + text + seq!['"', ']']
}

/// The user ids that the data of an event mention.
pub open spec fn mentioned_in(
    data: PostedData<Seq<char>, Seq<AttachedFile<Seq<char>>>>,
) -> Option<Seq<Seq<char>>> {
    match data.mentions {
        Some(raw) => json_strings(raw),
        None => None,
    }
}

/// The post that roots the thread of a post: itself for a top-level post.
pub open spec fn root_of(post: Post<Seq<char>, Seq<AttachedFile<Seq<char>>>>) -> Seq<char> {
    if post.root_id.len() == 0 {
        post.id
    } else {
        post.root_id
    }
}

/// What a post is to the bot, given the user ids that it mentions. An ordinary post with a text or
/// a file is supported.
pub open spec fn event_of(
    data: PostedData<Seq<char>, Seq<AttachedFile<Seq<char>>>>,
    identity: Identity<Seq<char>>,
    mentioned: Option<Seq<Seq<char>>>,
) -> Option<Event<Seq<char>, Seq<AttachedFile<Seq<char>>>>> {
    match data.post {
        Some(post) => {
            let text = without_mention(post.message, identity.username);
            Some(
                Event {
                    event_id: post.id,
                    channel_type: match data.channel_type {
                        Some(channel_type) => channel_type,
                        None => Seq::empty(),
                    },
                    channel: post.channel_id,
                    user: post.user_id,
                    text,
                    root: root_of(post),
                    files: post.files,
                    is_mention: mentioned is Some && mentioned->0.contains(identity.user_id),
                    is_from_me: post.user_id == identity.user_id,
                    is_supported: post.kind.len() == 0 && post.channel_id.len() > 0
                        && post.user_id.len() > 0 && (trimmed(text).len() > 0 || post.files.len()
                        > 0) && root_of(post).len() > 0,
                },
            )
        },
        None => None,
    }
}

/// What an optional event holds.
pub open spec fn event_view(event: Option<Event<String, Vec<AttachedFile<String>>>>) -> Option<
    Event<Seq<char>, Seq<AttachedFile<Seq<char>>>>,
> {
    match event {
        Some(e) => Some(e@),
        None => None,
    }
}

/// Reads what a post is to the bot, given the user ids that it mentions.
pub fn parse_event_given(
    data: &PostedData<String, Vec<AttachedFile<String>>>,
    identity: &Identity<String>,
    mentioned: &Option<Vec<String>>,
) -> (event: Option<Event<String, Vec<AttachedFile<String>>>>)
    ensures
        event_view(event) == event_of(data@, identity@, maybe_texts(*mentioned)),
{
    let channel_type = match &data.channel_type {
        Some(channel_type) => channel_type.clone(),
        None => String::new(),
    };
    let post = match &data.post {
        Some(post) => post,
        None => return None,
    };
    let root = if post.root_id.as_str().is_empty() {
        post.id.clone()
    } else {
        post.root_id.clone()
    };
    let is_mention = match mentioned {
        Some(mentioned) => holds(mentioned, identity.user_id.as_str()),
        None => false,
    };
    let is_from_me = same(post.user_id.as_str(), identity.user_id.as_str());
    let text = strip_mention(post.message.as_str(), identity.username.as_str());
    let is_supported = post.kind.as_str().is_empty() && !post.channel_id.as_str().is_empty()
        && !post.user_id.as_str().is_empty() && (!trim(text.as_str()).is_empty()
        || post.files.len() > 0) && !root.as_str().is_empty();
    let event = Event {
        event_id: post.id.clone(),
        channel_type,
        channel: post.channel_id.clone(),
        user: post.user_id.clone(),
        text,
        root,
        files: copy_files(&post.files),
        is_mention,
        is_from_me,
        is_supported,
    };
    assert(data.channel_type is None ==> event.channel_type@ =~= Seq::<char>::empty());
    Some(event)
}

/// Reads what a post is to the bot.
pub fn parse_event(
    data: &PostedData<String, Vec<AttachedFile<String>>>,
    identity: &Identity<String>,
) -> (event: Option<Event<String, Vec<AttachedFile<String>>>>)
    ensures
        event_view(event) == event_of(data@, identity@, mentioned_in(data@)),
        is_plain_text(identity@.user_id) && data@.mentions == Some(json_of(identity@.user_id))
            ==> (event matches Some(e) ==> e.is_mention),
{
    let mentioned = match &data.mentions {
        Some(raw) => {
            let list = parse_json_strings(raw.as_str());
            proof {
                let only = seq![identity@.user_id];
                assert(only[0] == identity@.user_id);
                assert(only.contains(identity@.user_id));
            }
            list
        },
        None => None,
    };
    parse_event_given(data, identity, &mentioned)
}

/// Whether a post is for the bot: in a direct message every post is; elsewhere only one that
/// mentions the bot, or continues a thread that the bot has replied in.
pub open spec fn is_triggered(
    event: Event<Seq<char>, Seq<AttachedFile<Seq<char>>>>,
    in_active_thread: bool,
) -> bool {
    event.channel_type == "D"@ || event.is_mention || in_active_thread
}

/// Whether a post reaches the agent: it is for the bot, of a supported kind, not the bot's own, and
/// from a user on the allow list.
pub open spec fn is_accepted(
    event: Event<Seq<char>, Seq<AttachedFile<Seq<char>>>>,
    in_active_thread: bool,
    is_allowed: bool,
) -> bool {
    event.is_supported && is_triggered(event, in_active_thread) && !event.is_from_me && is_allowed
}

/// A post without its content, if it does not reach the agent.
pub open spec fn redacted(
    event: Event<Seq<char>, Seq<AttachedFile<Seq<char>>>>,
    accepted: bool,
) -> Event<Seq<char>, Seq<AttachedFile<Seq<char>>>> {
    if accepted {
        event
    } else {
        Event { text: Seq::empty(), files: Seq::empty(), ..event }
    }
}

/// Takes the content out of a post that does not reach the agent, and tells whether it does.
pub fn screen(
    event: &mut Event<String, Vec<AttachedFile<String>>>,
    in_active_thread: bool,
    is_allowed: bool,
) -> (accepted: bool)
    ensures
        accepted == is_accepted(old(event)@, in_active_thread, is_allowed),
        final(event)@ == redacted(old(event)@, accepted),
{
    let triggered = same(event.channel_type.as_str(), "D") || event.is_mention || in_active_thread;
    let accepted = event.is_supported && triggered && !event.is_from_me && is_allowed;
    if !accepted {
        event.text = String::new();
        event.files = Vec::new();
        assert(event.text@ =~= Seq::<char>::empty());
        assert(files_view(event.files@) =~= Seq::<AttachedFile<Seq<char>>>::empty());
    }
    accepted
}

/// What stands behind the last dot of a filename.
pub open spec fn extension_of(filename: Seq<char>) -> Option<Seq<char>> {
    let start = after_last(filename, '.', filename.len() as int);
    if start > 0 {
        Some(filename.skip(start))
    } else {
        None
    }
}

/// The extensions of files that are downloaded: text, code, data, Markdown, PDF and images.
pub open spec fn allowed_extensions() -> Seq<Seq<char>> {
    seq![
        "txt"@,
        "log"@,
        "md"@,
        "csv"@,
        "json"@,
        "yaml"@,
        "yml"@,
        "toml"@,
        "xml"@,
        "html"@,
        "css"@,
        "js"@,
        "ts"@,
        "py"@,
        "rs"@,
        "go"@,
        "java"@,
        "c"@,
        "h"@,
        "cpp"@,
        "sh"@,
        "sql"@,
        "pdf"@,
        "png"@,
        "jpg"@,
        "jpeg"@,
        "gif"@,
        "webp"@,
        "svg"@,
    ]
}

/// Gives the extensions of files that are downloaded.
fn allow_list() -> (extensions: Vec<String>)
    ensures
        texts(extensions@) == allowed_extensions(),
{
    let mut extensions: Vec<String> = Vec::new();
    extensions.push("txt".to_owned());
    extensions.push("log".to_owned());
    extensions.push("md".to_owned());
    extensions.push("csv".to_owned());
    extensions.push("json".to_owned());
    extensions.push("yaml".to_owned());
    extensions.push("yml".to_owned());
    extensions.push("toml".to_owned());
    extensions.push("xml".to_owned());
    extensions.push("html".to_owned());
    extensions.push("css".to_owned());
    extensions.push("js".to_owned());
    extensions.push("ts".to_owned());
    extensions.push("py".to_owned());
    extensions.push("rs".to_owned());
    extensions.push("go".to_owned());
    extensions.push("java".to_owned());
    extensions.push("c".to_owned());
    extensions.push("h".to_owned());
    extensions.push("cpp".to_owned());
    extensions.push("sh".to_owned());
    extensions.push("sql".to_owned());
    extensions.push("pdf".to_owned());
    extensions.push("png".to_owned());
    extensions.push("jpg".to_owned());
    extensions.push("jpeg".to_owned());
    extensions.push("gif".to_owned());
    extensions.push("webp".to_owned());
    extensions.push("svg".to_owned());
    assert(texts(extensions@) =~= allowed_extensions());
    extensions
}

/// Whether the extension of a filename is on the allow list, whatever its case.
pub open spec fn is_allowed(filename: Seq<char>) -> bool {
    extension_of(filename) is Some && exists|i: int|
        0 <= i < allowed_extensions().len() && ascii_lowered(#[trigger] allowed_extensions()[i])
            == ascii_lowered(extension_of(filename)->0)
}

/// Tells the files whose extension is on the allow list from the others.
pub open spec fn on_list() -> spec_fn(AttachedFile<Seq<char>>) -> bool {
    |file: AttachedFile<Seq<char>>| is_allowed(file.filename)
}

/// Tells whether the extension of a filename is on a list.
fn has_listed_extension(filename: &str, extensions: &Vec<String>) -> (yes: bool)
    requires
        texts(extensions@) == allowed_extensions(),
    ensures
        yes == is_allowed(filename@),
{
    let chars = chars_of(filename);
    let end: usize = chars.len();
    let start = find_after_last(&chars, '.', end);
    if start == 0 {
        return false;
    }
    let extension = filename.substring_char(start, end);
    assert(extension@ =~= filename@.skip(start as int));
    let mut i: usize = 0;
    while i < extensions.len()
        invariant
            i <= extensions@.len(),
            extension_of(filename@) == Some(extension@),
            texts(extensions@) == allowed_extensions(),
            texts(extensions@).len() == extensions@.len(),
            forall|j: int|
                0 <= j < i ==> ascii_lowered(#[trigger] allowed_extensions()[j]) != ascii_lowered(
                    extension@,
                ),
        decreases extensions@.len() - i,
    {
        assert(texts(extensions@)[i as int] == extensions@[i as int]@);
        if same_ignoring_ascii_case(extensions[i].as_str(), extension) {
            return true;
        }
        i = i + 1;
    }
    false
}

/// Keeps the files whose extension is on the allow list; the others are ignored.
pub fn listed_files(files: &Vec<AttachedFile<String>>) -> (kept: Vec<AttachedFile<String>>)
    ensures
        files_view(kept@) == files_view(files@).filter(on_list()),
{
    let extensions = allow_list();
    let ghost all = files_view(files@);
    let ghost test = on_list();
    let mut kept: Vec<AttachedFile<String>> = Vec::new();
    let mut i: usize = 0;
    proof {
        reveal(Seq::filter);
        assert(all.take(0).filter(test) =~= Seq::<AttachedFile<Seq<char>>>::empty());
    }
    assert(files_view(kept@) =~= all.take(0).filter(test));
    while i < files.len()
        invariant
            i <= files@.len(),
            all == files_view(files@),
            test == on_list(),
            texts(extensions@) == allowed_extensions(),
            files_view(kept@) == all.take(i as int).filter(test),
        decreases files@.len() - i,
    {
        let ghost before = files_view(kept@);
        proof {
            reveal(Seq::filter);
            assert(all.take(i + 1).drop_last() =~= all.take(i as int));
            assert(all.take(i + 1).last() == files@[i as int]@);
        }
        if has_listed_extension(files[i].filename.as_str(), &extensions) {
            let file = AttachedFile {
                id: files[i].id.clone(),
                filename: files[i].filename.clone(),
            };
            kept.push(file);
            assert(files_view(kept@) =~= before.push(file@));
        }
        i = i + 1;
    }
    assert(all.take(i as int) =~= all);
    kept
}

} // verus!
