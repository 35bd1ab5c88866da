//! The inbox of posts: each post once, in the order in which they came, and the threads that the
//! bot has replied in.

use crate::gateway::voice::VoiceAttachment;
use crate::mattermost::event::{copy_files, files_view, AttachedFile, Event};
use crate::mattermost::target::{bar_joined, barless, message_target, message_target_reads_back};
use crate::text::{maybe, same};
use vstd::prelude::*;

verus! {

/// Upper bound on remembered active threads; the oldest are pruned past this.
pub const MAX_ACTIVE_THREADS: usize = 500;

/// A post in the inbox. The text type `S` is `String` in the program and a sequence of characters
/// in contracts; `L` is the type of a list of files.
#[derive(Debug)]
pub struct InboxRow<S, L> {
    pub id: i64,
    pub event_id: S,
    pub channel: S,
    pub user: S,
    pub text: S,
    pub root: S,
    pub channel_type: S,
    pub files: L,
    pub is_from_me: bool,
    pub is_supported: bool,
}

impl View for InboxRow<String, Vec<AttachedFile<String>>> {
    type V = InboxRow<Seq<char>, Seq<AttachedFile<Seq<char>>>>;

    open spec fn view(&self) -> InboxRow<Seq<char>, Seq<AttachedFile<Seq<char>>>> {
        InboxRow {
            id: self.id,
            event_id: self.event_id@,
            channel: self.channel@,
            user: self.user@,
            text: self.text@,
            root: self.root@,
            channel_type: self.channel_type@,
            files: files_view(self.files@),
            is_from_me: self.is_from_me,
            is_supported: self.is_supported,
        }
    }
}

/// A message as a channel hands it on.
#[derive(Debug)]
pub struct RawMessage<S, L> {
    pub row_id: i64,
    pub provider_event_id: Option<S>,
    pub channel: &'static str,
    pub handle: S,
    pub chat_identifier: S,
    pub is_group: bool,
    pub text: S,
    pub voice: Option<VoiceAttachment>,
    pub files: L,
    pub is_from_me: bool,
    pub is_supported: bool,
    pub thread_id: Option<S>,
}

impl View for RawMessage<String, Vec<AttachedFile<String>>> {
    type V = RawMessage<Seq<char>, Seq<AttachedFile<Seq<char>>>>;

    open spec fn view(&self) -> RawMessage<Seq<char>, Seq<AttachedFile<Seq<char>>>> {
        RawMessage {
            row_id: self.row_id,
            provider_event_id: maybe(self.provider_event_id),
            channel: self.channel,
            handle: self.handle@,
            chat_identifier: self.chat_identifier@,
            is_group: self.is_group,
            text: self.text@,
            voice: self.voice,
            files: files_view(self.files@),
            is_from_me: self.is_from_me,
            is_supported: self.is_supported,
            thread_id: maybe(self.thread_id),
        }
    }
}

impl RawMessage<String, Vec<AttachedFile<String>>> {
    /// The id of the message among those of all channels.
    pub fn event_id(&self) -> (id: String)
        requires
            self.provider_event_id is Some,
        ensures
            id@ == self.channel@ + ":"@ + self@.provider_event_id->0,
    {
        let mut id = self.channel.to_owned();
        id.append(":");
        match &self.provider_event_id {
            Some(event_id) => id.append(event_id.as_str()),
            None => {},
        }
        id
    }
}

/// The posts in the inbox.
pub open spec fn rows_view(rows: Seq<InboxRow<String, Vec<AttachedFile<String>>>>) -> Seq<
    InboxRow<Seq<char>, Seq<AttachedFile<Seq<char>>>>,
> {
    rows.map_values(|row: InboxRow<String, Vec<AttachedFile<String>>>| row@)
}

/// What messages hold.
pub open spec fn messages_view(
    messages: Seq<RawMessage<String, Vec<AttachedFile<String>>>>,
) -> Seq<RawMessage<Seq<char>, Seq<AttachedFile<Seq<char>>>>> {
    messages.map_values(|message: RawMessage<String, Vec<AttachedFile<String>>>| message@)
}

/// A thread: its channel and its root.
#[derive(Debug)]
pub struct Thread {
    pub channel: String,
    pub root: String,
}

/// The channels and roots of threads.
pub open spec fn threads_view(threads: Seq<Thread>) -> Seq<(Seq<char>, Seq<char>)> {
    threads.map_values(|thread: Thread| (thread.channel@, thread.root@))
}

/// Whether rows are an inbox: their ids grow, and no two are the same post.
pub open spec fn is_inbox(rows: Seq<InboxRow<Seq<char>, Seq<AttachedFile<Seq<char>>>>>) -> bool {
    &&& forall|i: int| 0 <= i < rows.len() ==> 0 < (#[trigger] rows[i]).id
    &&& forall|i: int, j: int|
        0 <= i < j < rows.len() ==> (#[trigger] rows[i]).id < (#[trigger] rows[j]).id
    &&& forall|i: int, j: int|
        0 <= i < j < rows.len() ==> (#[trigger] rows[i]).event_id != (#[trigger] rows[j]).event_id
}

/// The id of the newest row; none has the id 0.
pub open spec fn newest_id(rows: Seq<InboxRow<Seq<char>, Seq<AttachedFile<Seq<char>>>>>) -> int {
    if rows.len() == 0 {
        0
    } else {
        rows.last().id as int
    }
}

/// Where a post stands in the inbox.
pub open spec fn place_of(
    rows: Seq<InboxRow<Seq<char>, Seq<AttachedFile<Seq<char>>>>>,
    event_id: Seq<char>,
) -> Option<int>
    decreases rows.len(),
{
    if rows.len() == 0 {
        None
    } else if rows.last().event_id == event_id {
        Some(rows.len() - 1)
    } else {
        place_of(rows.drop_last(), event_id)
    }
}

/// The row of a post.
pub open spec fn row_of(
    id: i64,
    event: Event<Seq<char>, Seq<AttachedFile<Seq<char>>>>,
) -> InboxRow<Seq<char>, Seq<AttachedFile<Seq<char>>>> {
    InboxRow {
        id,
        event_id: event.event_id,
        channel: event.channel,
        user: event.user,
        text: event.text,
        root: event.root,
        channel_type: event.channel_type,
        files: event.files,
        is_from_me: event.is_from_me,
        is_supported: event.is_supported,
    }
}

/// The inbox with a post, unless it is there already.
pub open spec fn with_event(
    rows: Seq<InboxRow<Seq<char>, Seq<AttachedFile<Seq<char>>>>>,
    event: Event<Seq<char>, Seq<AttachedFile<Seq<char>>>>,
) -> Seq<InboxRow<Seq<char>, Seq<AttachedFile<Seq<char>>>>> {
    if place_of(rows, event.event_id) is Some {
        rows
    } else {
        rows.push(row_of((newest_id(rows) + 1) as i64, event))
    }
}

/// The message that a row hands on.
pub open spec fn message_of(
    row: InboxRow<Seq<char>, Seq<AttachedFile<Seq<char>>>>,
) -> RawMessage<Seq<char>, Seq<AttachedFile<Seq<char>>>> {
    RawMessage {
        row_id: row.id,
        provider_event_id: Some(row.event_id),
        channel: "mattermost",
        handle: row.user,
        chat_identifier: bar_joined(row.channel_type, bar_joined(row.channel, row.root)),
        is_group: false,
        text: row.text,
        voice: None,
        files: row.files,
        is_from_me: row.is_from_me,
        is_supported: row.is_supported,
        thread_id: None,
    }
}

/// The messages of the first `n` rows with an id above a cursor, in their order.
pub open spec fn messages_after(
    rows: Seq<InboxRow<Seq<char>, Seq<AttachedFile<Seq<char>>>>>,
    since: int,
    n: int,
) -> Seq<RawMessage<Seq<char>, Seq<AttachedFile<Seq<char>>>>>
    decreases n,
{
    if n <= 0 {
        Seq::empty()
    } else if rows[n - 1].id > since {
        messages_after(rows, since, n - 1).push(message_of(rows[n - 1]))
    } else {
        messages_after(rows, since, n - 1)
    }
}

/// The newest threads, as many as are remembered.
pub open spec fn newest(threads: Seq<(Seq<char>, Seq<char>)>) -> Seq<(Seq<char>, Seq<char>)> {
    if threads.len() <= MAX_ACTIVE_THREADS {
        threads
    } else {
        threads.skip(threads.len() - MAX_ACTIVE_THREADS)
    }
}

/// The threads with one more, unless it is among them or has no root; only the newest are kept.
pub open spec fn with_thread(
    threads: Seq<(Seq<char>, Seq<char>)>,
    channel: Seq<char>,
    root: Seq<char>,
) -> Seq<(Seq<char>, Seq<char>)> {
    if root.len() == 0 {
        threads
    } else if threads.contains((channel, root)) {
        newest(threads)
    } else {
        newest(threads.push((channel, root)))
    }
}

/// Whether a thread is one that the bot has replied in.
pub open spec fn is_active(
    threads: Seq<(Seq<char>, Seq<char>)>,
    channel: Seq<char>,
    root: Seq<char>,
) -> bool {
    root.len() > 0 && threads.contains((channel, root))
}

/// A post is found where it stands, and nowhere if it is not there.
pub proof fn place_is_found(
    rows: Seq<InboxRow<Seq<char>, Seq<AttachedFile<Seq<char>>>>>,
    event_id: Seq<char>,
)
    ensures
        place_of(rows, event_id) matches Some(at) ==> 0 <= at < rows.len() && rows[at].event_id
            == event_id,
        place_of(rows, event_id) is None ==> forall|i: int|
            0 <= i < rows.len() ==> (#[trigger] rows[i]).event_id != event_id,
    decreases rows.len(),
{
    if rows.len() > 0 && rows.last().event_id != event_id {
        let front = rows.drop_last();
        place_is_found(front, event_id);
        if place_of(front, event_id) is None {
            assert forall|i: int| 0 <= i < rows.len() implies (#[trigger] rows[i]).event_id
                != event_id by {
                if i < front.len() {
                    assert(rows[i] == front[i]);
                }
            }
        }
    }
}

/// An inbox stays one when a post is taken in, as long as there are ids.
pub proof fn an_inbox_stays_one(
    rows: Seq<InboxRow<Seq<char>, Seq<AttachedFile<Seq<char>>>>>,
    event: Event<Seq<char>, Seq<AttachedFile<Seq<char>>>>,
)
    requires
        is_inbox(rows),
        newest_id(rows) < i64::MAX,
    ensures
        is_inbox(with_event(rows, event)),
        place_of(with_event(rows, event), event.event_id) is Some,
{
    place_is_found(rows, event.event_id);
    if place_of(rows, event.event_id) is None {
        let after = with_event(rows, event);
        let n = rows.len() as int;
        assert(after[n] == row_of((newest_id(rows) + 1) as i64, event));
        assert(after.last() == after[n]);
        assert forall|i: int| 0 <= i < n implies (#[trigger] after[i]).id < after[n].id
            && after[i].event_id != after[n].event_id && after[i] == rows[i] by {
            assert(rows[i].id <= rows.last().id);
        }
    }
}

/// The post id deduplicates: a post that is taken in twice is there once, and keeps its row,
/// whatever the second event says of it.
pub proof fn a_post_is_taken_in_once(
    rows: Seq<InboxRow<Seq<char>, Seq<AttachedFile<Seq<char>>>>>,
    first: Event<Seq<char>, Seq<AttachedFile<Seq<char>>>>,
    second: Event<Seq<char>, Seq<AttachedFile<Seq<char>>>>,
)
    requires
        first.event_id == second.event_id,
    ensures
        with_event(with_event(rows, first), second) == with_event(rows, first),
{
    let after = with_event(rows, first);
    if place_of(rows, first.event_id) is None {
        assert(after.last().event_id == second.event_id);
    }
}

/// No row lies after the cursor of the newest one, and every row lies after the cursor 0.
pub proof fn the_newest_cursor_is_the_end(
    rows: Seq<InboxRow<Seq<char>, Seq<AttachedFile<Seq<char>>>>>,
    n: int,
)
    requires
        is_inbox(rows),
        0 <= n <= rows.len(),
    ensures
        messages_after(rows, newest_id(rows), n).len() == 0,
        messages_after(rows, 0, n) == rows.take(n).map_values(
            |row: InboxRow<Seq<char>, Seq<AttachedFile<Seq<char>>>>| message_of(row),
        ),
    decreases n,
{
    let handed_on = |row: InboxRow<Seq<char>, Seq<AttachedFile<Seq<char>>>>| message_of(row);
    if n > 0 {
        the_newest_cursor_is_the_end(rows, n - 1);
        assert(rows[n - 1].id <= rows.last().id);
        assert(rows.take(n).drop_last() =~= rows.take(n - 1));
        assert(rows.take(n).map_values(handed_on) =~= rows.take(n - 1).map_values(handed_on).push(
            message_of(rows[n - 1]),
        ));
    } else {
        assert(rows.take(0).map_values(handed_on) =~= Seq::empty());
    }
}

/// What stands behind the first `n` rows does not matter to what is read of them.
proof fn messages_of_prefix(
    rows: Seq<InboxRow<Seq<char>, Seq<AttachedFile<Seq<char>>>>>,
    row: InboxRow<Seq<char>, Seq<AttachedFile<Seq<char>>>>,
    since: int,
    n: int,
)
    requires
        0 <= n <= rows.len(),
    ensures
        messages_after(rows.push(row), since, n) == messages_after(rows, since, n),
    decreases n,
{
    if n > 0 {
        messages_of_prefix(rows, row, since, n - 1);
        assert(rows.push(row)[n - 1] == rows[n - 1]);
    }
}

/// A new post is read after every cursor that was handed out before, behind what was to be read
/// anyhow: nothing is lost or read out of order.
pub proof fn a_new_post_is_read_last(
    rows: Seq<InboxRow<Seq<char>, Seq<AttachedFile<Seq<char>>>>>,
    event: Event<Seq<char>, Seq<AttachedFile<Seq<char>>>>,
    since: int,
)
    requires
        is_inbox(rows),
        newest_id(rows) < i64::MAX,
        since <= newest_id(rows),
        place_of(rows, event.event_id) is None,
    ensures
        ({
            let after = with_event(rows, event);
            messages_after(after, since, after.len() as int) == messages_after(
                rows,
                since,
                rows.len() as int,
            ).push(message_of(after.last()))
        }),
{
    let row = row_of((newest_id(rows) + 1) as i64, event);
    messages_of_prefix(rows, row, since, rows.len() as int);
    assert(rows.push(row)[rows.len() as int] == row);
}

/// The message of a row tells its channel type, channel and thread root, where none is empty and
/// the first two hold no bar.
pub proof fn a_message_tells_where_it_is_from(
    row: InboxRow<Seq<char>, Seq<AttachedFile<Seq<char>>>>,
)
    requires
        barless(row.channel_type),
        barless(row.channel),
        row.channel_type.len() > 0,
        row.channel.len() > 0,
        row.root.len() > 0,
    ensures
        message_target(message_of(row).chat_identifier) == Some(
            (row.channel_type, row.channel, row.root),
        ),
{
    message_target_reads_back(row.channel_type, row.channel, row.root);
}

/// A thread that is marked is active, and no more threads are remembered than the bound; the newest
/// before it stay active.
pub proof fn a_marked_thread_is_active(
    threads: Seq<(Seq<char>, Seq<char>)>,
    channel: Seq<char>,
    root: Seq<char>,
    i: int,
)
    requires
        root.len() > 0,
        threads.len() <= MAX_ACTIVE_THREADS,
    ensures
        is_active(with_thread(threads, channel, root), channel, root),
        with_thread(threads, channel, root).len() <= MAX_ACTIVE_THREADS,
        0 <= i < threads.len() && i > threads.len() - MAX_ACTIVE_THREADS && threads[i].1.len() > 0
            ==> is_active(with_thread(threads, channel, root), threads[i].0, threads[i].1),
{
    let after = with_thread(threads, channel, root);
    let all = threads.push((channel, root));
    if threads.contains((channel, root)) {
        assert(after == threads);
        if 0 <= i < threads.len() {
            assert(after.contains(threads[i]));
        }
    } else {
        assert(after.last() == (channel, root));
        assert(after[after.len() - 1] == (channel, root));
        let dropped = all.len() - after.len();
        if dropped <= i < threads.len() {
            assert(after[i - dropped] == threads[i]);
        }
    }
}

/// The inbox.
#[derive(Debug)]
pub struct Inbox {
    pub rows: Vec<InboxRow<String, Vec<AttachedFile<String>>>>,
    /// The threads that the bot has replied in, the oldest first.
    pub threads: Vec<Thread>,
}

impl Inbox {
    /// What holds of every inbox that the functions here give.
    pub open spec fn wf(self) -> bool {
        is_inbox(rows_view(self.rows@))
    }

    /// An inbox without posts.
    pub fn new() -> (inbox: Inbox)
        ensures
            inbox.wf(),
            inbox.rows@.len() == 0,
            inbox.threads@.len() == 0,
    {
        Inbox { rows: Vec::new(), threads: Vec::new() }
    }

    /// Takes up an inbox from its stored rows and threads; none where the rows are no inbox.
    pub fn restore(
        rows: Vec<InboxRow<String, Vec<AttachedFile<String>>>>,
        threads: Vec<Thread>,
    ) -> (inbox: Option<Inbox>)
        ensures
            inbox is Some <==> is_inbox(rows_view(rows@)),
            inbox matches Some(i) ==> i.wf() && i.rows == rows && i.threads == threads,
    {
        let ghost view = rows_view(rows@);
        let mut n: usize = 0;
        while n < rows.len()
            invariant
                n <= rows@.len(),
                view == rows_view(rows@),
                is_inbox(view.take(n as int)),
            decreases rows@.len() - n,
        {
            let ghost front = view.take(n as int);
            let ghost longer = view.take(n + 1);
            assert(view[n as int] == rows@[n as int]@);
            assert(longer =~= front.push(view[n as int]));
            if rows[n].id <= 0 {
                assert(!(0 < view[n as int].id));
                return None;
            }
            if n > 0 {
                assert(view[n - 1] == rows@[n - 1]@);
                if rows[n].id <= rows[n - 1].id {
                    assert(!(view[n - 1].id < view[n as int].id));
                    return None;
                }
            }
            let mut i: usize = 0;
            while i < n
                invariant
                    i <= n < rows@.len(),
                    view == rows_view(rows@),
                    forall|j: int|
                        0 <= j < i ==> (#[trigger] view[j]).event_id != view[n as int].event_id,
                decreases n - i,
            {
                assert(view[n as int] == rows@[n as int]@);
                assert(view[i as int] == rows@[i as int]@);
                if same(rows[i].event_id.as_str(), rows[n].event_id.as_str()) {
                    assert(!is_inbox(view)) by {
                        assert(view[i as int].event_id == view[n as int].event_id);
                    }
                    return None;
                }
                i = i + 1;
            }
            proof {
                assert forall|j: int| 0 <= j < n implies (#[trigger] longer[j]).id < longer[
                    n as int
                ].id && longer[j].event_id != longer[n as int].event_id by {
                    assert(longer[j] == front[j]);
                    assert(longer[j] == view[j]);
                    if j < n - 1 {
                        assert(front[j].id < front[n - 1].id);
                    }
                }
                assert forall|j: int, k: int| 0 <= j < k < longer.len() implies (
                #[trigger] longer[j]).id < (#[trigger] longer[k]).id && longer[j].event_id
                    != longer[k].event_id by {
                    if k < n {
                        assert(longer[j] == front[j]);
                        assert(longer[k] == front[k]);
                    }
                }
                assert forall|j: int| 0 <= j < longer.len() implies 0 < (#[trigger] longer[j]).id by {
                    if j < n {
                        assert(longer[j] == front[j]);
                    }
                }
            }
            n = n + 1;
        }
        assert(view.take(view.len() as int) =~= view);
        Some(Inbox { rows, threads })
    }

    /// Takes in a post and gives the id of its row, which is that of the row that is there where
    /// the post is not new. None where there are no ids left; then nothing changes.
    pub fn insert(&mut self, event: &Event<String, Vec<AttachedFile<String>>>) -> (id: Option<i64>)
        requires
            old(self).wf(),
        ensures
            final(self).wf(),
            final(self).threads == old(self).threads,
            id is None <==> place_of(rows_view(old(self).rows@), event@.event_id) is None
                && newest_id(rows_view(old(self).rows@)) == i64::MAX,
            id is None ==> rows_view(final(self).rows@) == rows_view(old(self).rows@),
            id matches Some(row_id) ==> {
                let rows = with_event(rows_view(old(self).rows@), event@);
                &&& rows_view(final(self).rows@) == rows
                &&& place_of(rows, event@.event_id) matches Some(at) && rows[at].id == row_id
            },
    {
        let ghost view = rows_view(self.rows@);
        let mut n: usize = self.rows.len();
        assert(view.take(n as int) =~= view);
        while n > 0
            invariant
                n <= self.rows@.len(),
                view == rows_view(self.rows@),
                is_inbox(view),
                place_of(view, event@.event_id) == place_of(view.take(n as int), event@.event_id),
            decreases n,
        {
            assert(view[n - 1] == self.rows@[n - 1]@);
            assert(view.take(n as int).last() == view[n - 1]);
            if same(self.rows[n - 1].event_id.as_str(), event.event_id.as_str()) {
                return Some(self.rows[n - 1].id);
            }
            assert(view.take(n as int).drop_last() =~= view.take(n - 1));
            n = n - 1;
        }
        let count: usize = self.rows.len();
        let newest: i64 = if count == 0 {
            0
        } else {
            self.rows[count - 1].id
        };
        assert(count > 0 ==> view.last() == self.rows@[count - 1]@);
        if newest == i64::MAX {
            return None;
        }
        proof {
            an_inbox_stays_one(view, event@);
        }
        let row = InboxRow {
            id: newest + 1,
            event_id: event.event_id.clone(),
            channel: event.channel.clone(),
            user: event.user.clone(),
            text: event.text.clone(),
            root: event.root.clone(),
            channel_type: event.channel_type.clone(),
            files: copy_files(&event.files),
            is_from_me: event.is_from_me,
            is_supported: event.is_supported,
        };
        self.rows.push(row);
        assert(rows_view(self.rows@) =~= view.push(row@));
        Some(newest + 1)
    }

    /// The id of the newest row, 0 where there is none.
    pub fn latest_cursor(&self) -> (cursor: i64)
        ensures
            cursor == newest_id(rows_view(self.rows@)),
    {
        let count: usize = self.rows.len();
        if count == 0 {
            0
        } else {
            assert(rows_view(self.rows@).last() == self.rows@[count - 1]@);
            self.rows[count - 1].id
        }
    }

    /// The messages of the rows after a cursor.
    pub fn after(&self, since: i64) -> (messages: Vec<
        RawMessage<String, Vec<AttachedFile<String>>>,
    >)
        ensures
            messages_view(messages@) == messages_after(
                rows_view(self.rows@),
                since as int,
                self.rows@.len() as int,
            ),
    {
        let ghost view = rows_view(self.rows@);
        let mut messages: Vec<RawMessage<String, Vec<AttachedFile<String>>>> = Vec::new();
        let mut i: usize = 0;
        assert(messages_view(messages@) =~= Seq::empty());
        while i < self.rows.len()
            invariant
                i <= self.rows@.len(),
                view == rows_view(self.rows@),
                messages_view(messages@) == messages_after(view, since as int, i as int),
            decreases self.rows@.len() - i,
        {
            let ghost before = messages_view(messages@);
            assert(view[i as int] == self.rows@[i as int]@);
            if self.rows[i].id > since {
                let message = hand_on(&self.rows[i]);
                messages.push(message);
                assert(messages_view(messages@) =~= before.push(message@));
            }
            i = i + 1;
        }
        messages
    }

    /// Remembers a thread as one that the bot has replied in. Only the most recent ones are kept,
    /// so that they cannot grow without bound.
    pub fn mark_active_thread(&mut self, channel: &str, root: &str)
        ensures
            threads_view(final(self).threads@) == with_thread(
                threads_view(old(self).threads@),
                channel@,
                root@,
            ),
            final(self).rows == old(self).rows,
    {
        if root.is_empty() {
            return;
        }
        let ghost before = threads_view(self.threads@);
        if !self.has_thread(channel, root) {
            let thread = Thread { channel: channel.to_owned(), root: root.to_owned() };
            self.threads.push(thread);
            assert(threads_view(self.threads@) =~= before.push((channel@, root@)));
        }
        let ghost all = threads_view(self.threads@);
        let ghost rows = self.rows;
        assert(all.skip(0) =~= all);
        let mut dropped: usize = 0;
        let excess: usize = if self.threads.len() > MAX_ACTIVE_THREADS {
            self.threads.len() - MAX_ACTIVE_THREADS
        } else {
            0
        };
        while dropped < excess
            invariant
                dropped <= excess <= all.len(),
                threads_view(self.threads@) == all.skip(dropped as int),
                self.rows == rows,
            decreases excess - dropped,
        {
            let ghost kept = self.threads@;
            assert(threads_view(kept).len() == kept.len());
            self.threads.remove(0);
            assert(threads_view(self.threads@) =~= all.skip(dropped + 1)) by {
                assert(threads_view(kept) == all.skip(dropped as int));
                assert(self.threads@ =~= kept.remove(0));
                assert forall|j: int| 0 <= j < self.threads@.len() implies threads_view(
                    self.threads@,
                )[j] == all.skip(dropped + 1)[j] by {
                    assert(self.threads@[j] == kept[j + 1]);
                    assert(threads_view(kept)[j + 1] == all.skip(dropped as int)[j + 1]);
                }
            }
            dropped = dropped + 1;
        }
    }

    /// Whether the thread is among those remembered.
    fn has_thread(&self, channel: &str, root: &str) -> (yes: bool)
        ensures
            yes == threads_view(self.threads@).contains((channel@, root@)),
    {
        let mut i: usize = 0;
        while i < self.threads.len()
            invariant
                i <= self.threads@.len(),
                forall|j: int|
                    0 <= j < i ==> #[trigger] threads_view(self.threads@)[j] != (channel@, root@),
            decreases self.threads@.len() - i,
        {
            assert(threads_view(self.threads@)[i as int] == (
                self.threads@[i as int].channel@,
                self.threads@[i as int].root@,
            ));
            if same(self.threads[i].channel.as_str(), channel) && same(
                self.threads[i].root.as_str(),
                root,
            ) {
                return true;
            }
            i = i + 1;
        }
        false
    }

    /// Whether a thread is one that the bot has replied in.
    pub fn is_active_thread(&self, channel: &str, root: &str) -> (yes: bool)
        ensures
            yes == is_active(threads_view(self.threads@), channel@, root@),
    {
        !root.is_empty() && self.has_thread(channel, root)
    }
}

/// Makes the message that a row hands on.
fn hand_on(row: &InboxRow<String, Vec<AttachedFile<String>>>) -> (message: RawMessage<
    String,
    Vec<AttachedFile<String>>,
>)
    ensures
        message@ == message_of(row@),
{
    let mut chat_identifier = row.channel_type.clone();
    chat_identifier.append("|");
    chat_identifier.append(row.channel.as_str());
    chat_identifier.append("|");
    chat_identifier.append(row.root.as_str());
    proof {
        reveal_strlit("|");
        assert("|"@ =~= seq!['|']);
        assert(chat_identifier@ =~= bar_joined(
            row.channel_type@,
            bar_joined(row.channel@, row.root@),
        ));
    }
    RawMessage {
        row_id: row.id,
        provider_event_id: Some(row.event_id.clone()),
        channel: "mattermost",
        handle: row.user.clone(),
        chat_identifier,
        is_group: false,
        text: row.text.clone(),
        voice: None,
        files: copy_files(&row.files),
        is_from_me: row.is_from_me,
        is_supported: row.is_supported,
        thread_id: None,
    }
}

} // verus!
