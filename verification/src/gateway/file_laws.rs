//! What holds of the files that come with a message or a reply, and of voice messages.

use crate::chunk::concatenated;
use crate::gateway::attachments::{
    a_marker_is_taken_out, attached_paths, base_name, downloads, downloads_are_bounded, file_lines,
    last_part, lies_within, next_marker, next_marker_bounds, note_of, pieces_from, text_with_note,
    without_markers,
};
use crate::gateway::files::{
    fresh_downloads, AttachAction, AttachEvent, Attaching, DownloadAction, DownloadEvent, Downloads,
};
use crate::gateway::voice::{
    VoiceAction, VoiceAttachment, VoiceEvent, VoicePreparation, VoiceResult,
};
use crate::text::{
    after_last, after_last_is_last, contains, first_match, first_match_is_first, joined, occurs_at,
    trimmed,
};
use vstd::prelude::*;

verus! {

/// A text stands in a longer one where it stands in a part of it.
proof fn found_in_part(s: Seq<char>, pat: Seq<char>, from: int, to: int, at: int)
    requires
        0 <= from <= at,
        at + pat.len() <= to <= s.len(),
        occurs_at(s, pat, at),
    ensures
        contains(s.subrange(from, to), pat),
{
    let part = s.subrange(from, to);
    assert(part.subrange(at - from, at - from + pat.len()) =~= s.subrange(at, at + pat.len()));
    assert(occurs_at(part, pat, at - from));
}

/// Where a text begins with nothing like a pattern, and the pattern follows, it is found there.
proof fn found_behind_front(s: Seq<char>, pat: Seq<char>, from: int, at: int)
    requires
        0 <= from <= at,
        pat.len() > 0,
        occurs_at(s, pat, at),
        !contains(s.subrange(from, at + pat.len() - 1), pat),
    ensures
        first_match(s, pat, from) == Some(at),
{
    first_match_is_first(s, pat, from);
    let found = first_match(s, pat, from)->0;
    assert(first_match(s, pat, from) is Some);
    assert(found <= at);
    if found < at {
        found_in_part(s, pat, from, at + pat.len() - 1, found);
    }
}

/// What a reply keeps before it is trimmed.
pub open spec fn kept_of(s: Seq<char>) -> Seq<char> {
    concatenated(pieces_from(s, 0))
}

/// A marker is `[[attach:`, a path and `]]`. The first one goes out of a reply, which keeps what
/// stands before it and what is kept of the rest; its path, trimmed, is attached before those of
/// the rest, unless it is empty.
pub proof fn a_marker_attaches_its_path(front: Seq<char>, path: Seq<char>, back: Seq<char>)
    requires
        !contains(front + "[[attach"@, "[[attach:"@),
        !contains(path + "]"@, "]]"@),
    ensures
        ({
            let s = front + "[[attach:"@ + path + "]]"@ + back;
            &&& attached_paths(s) == (if trimmed(path).len() > 0 {
                seq![trimmed(path)] + attached_paths(back)
            } else {
                attached_paths(back)
            })
            &&& kept_of(s) == front + kept_of(back)
            &&& without_markers(s) == trimmed(kept_of(s))
        }),
{
    reveal_strlit("[[attach:");
    reveal_strlit("[[attach");
    reveal_strlit("]]");
    reveal_strlit("]");
    let opening = "[[attach:"@;
    let closing = "]]"@;
    let s = front + opening + path + closing + back;
    let open = front.len() as int;
    let start = open + 9;
    let close = start + path.len();
    assert(s.subrange(open, open + 9) =~= opening);
    assert(s.subrange(0, open + 9 - 1) =~= front + "[[attach"@);
    found_behind_front(s, opening, 0, open);
    assert(s.subrange(close, close + 2) =~= closing);
    assert(s.subrange(start, close + 2 - 1) =~= path + "]"@);
    found_behind_front(s, closing, start, close);
    assert(next_marker(s, 0) == Some((open, close)));
    a_marker_is_taken_out(front, path, back);
    let rest = pieces_from(back, 0);
    let pieces = pieces_from(s, 0);
    assert(pieces == seq![front] + rest);
    assert(pieces.skip(1) =~= rest);
}

/// An opening that nothing closes attaches nothing, and the reply ends before it.
pub proof fn an_unclosed_marker_ends_the_reply(front: Seq<char>, rest: Seq<char>)
    requires
        !contains(front + "[[attach"@, "[[attach:"@),
        !contains(rest, "]]"@),
    ensures
        attached_paths(front + "[[attach:"@ + rest) == Seq::<Seq<char>>::empty(),
        without_markers(front + "[[attach:"@ + rest) == trimmed(front),
{
    reveal_strlit("[[attach:");
    reveal_strlit("[[attach");
    let opening = "[[attach:"@;
    let s = front + opening + rest;
    let open = front.len() as int;
    assert(s.subrange(open, open + 9) =~= opening);
    assert(s.subrange(0, open + 9 - 1) =~= front + "[[attach"@);
    found_behind_front(s, opening, 0, open);
    next_marker_bounds(s, 0);
    first_match_is_first(s, "]]"@, open + 9);
    if let Some(close) = first_match(s, "]]"@, open + 9) {
        found_in_part(s, "]]"@, open + 9, s.len() as int, close);
        assert(s.subrange(open + 9, s.len() as int) =~= rest);
    }
    assert(s.subrange(0, open) =~= front);
    assert(pieces_from(s, 0) == seq![front]);
    assert(seq![front].skip(1) =~= Seq::<Seq<char>>::empty());
    assert(concatenated(Seq::<Seq<char>>::empty()) =~= Seq::<char>::empty());
    assert(concatenated(seq![front]) =~= front);
}

/// The lines about files, one below the other.
pub open spec fn files_below(head: Seq<char>, names: Seq<Seq<char>>) -> Seq<char>
    decreases names.len(),
{
    if names.len() == 0 {
        head
    } else if names.len() == 1 {
        head + ("- inbox/"@ + names.last())
    } else {
        files_below(head, names.drop_last()) + "\n"@ + ("- inbox/"@ + names.last())
    }
}

/// A head and the lines about files behind it.
proof fn lines_stand_below(head: Seq<char>, names: Seq<Seq<char>>)
    requires
        names.len() > 0,
    ensures
        head + joined(file_lines(names), "\n"@) == files_below(head, names),
    decreases names.len(),
{
    let lines = file_lines(names);
    if names.len() > 1 {
        assert(lines.drop_last() =~= file_lines(names.drop_last()));
        lines_stand_below(head, names.drop_last());
        assert(head + joined(lines, "\n"@) =~= head + joined(lines.drop_last(), "\n"@) + "\n"@
            + lines.last());
    }
}

/// The note names every file that was stored, in order, by its place in the inbox; there is none
/// where no file was.
pub proof fn the_note_names_every_stored_file(names: Seq<Seq<char>>)
    ensures
        names.len() == 0 ==> note_of(names).len() == 0,
        names.len() > 0 ==> note_of(names) == files_below(
            "The user attached the following file(s) in the working directory:\n"@,
            names,
        ),
{
    if names.len() > 0 {
        lines_stand_below(
            "The user attached the following file(s) in the working directory:\n"@,
            names,
        );
    }
}

/// A message keeps its text, with the note two lines below; a blank message becomes the note, and
/// without a note nothing changes.
pub proof fn the_note_stands_behind_the_message(text: Seq<char>, note: Seq<char>)
    ensures
        note.len() == 0 ==> text_with_note(text, note) == text,
        note.len() > 0 && trimmed(text).len() == 0 ==> text_with_note(text, note) == note,
        note.len() > 0 && trimmed(text).len() > 0 ==> text_with_note(text, note) == text + "\n\n"@
            + note,
{
}

/// What stands behind the last slash is found.
proof fn behind_last_slash(front: Seq<char>, name: Seq<char>)
    requires
        !name.contains('/'),
    ensures
        after_last(front.push('/') + name, '/', (front.len() + 1 + name.len()) as int) == front.len()
            + 1,
        after_last(name, '/', name.len() as int) == 0,
{
    let s = front.push('/') + name;
    let n = s.len() as int;
    after_last_is_last(s, '/', n);
    let at = after_last(s, '/', n);
    assert(s[front.len() as int] == '/');
    if at > front.len() + 1 {
        assert(s[at - 1] == name[at - 1 - front.len() - 1]);
        assert(name.contains('/'));
    }
    after_last_is_last(name, '/', name.len() as int);
    let inner = after_last(name, '/', name.len() as int);
    if inner > 0 {
        assert(name[inner - 1] == '/');
        assert(name.contains('/'));
    }
}

/// The base name of a path is what stands behind its last slash; slashes at the end and parts that
/// are a dot do not count. A path that ends upwards, or has no part, has none.
pub proof fn the_base_name_is_the_last_part(directory: Seq<char>, name: Seq<char>)
    requires
        !name.contains('/'),
    ensures
        name.len() > 0 && name != "."@ && name != ".."@ ==> base_name(name) == Some(name)
            && base_name(directory.push('/') + name) == Some(name),
        base_name(directory.push('/')) == base_name(directory),
        base_name(directory.push('/').push('.')) == base_name(directory),
        base_name(directory.push('/') + ".."@) is None,
        base_name(".."@) is None,
        base_name("."@) is None,
        base_name(Seq::empty()) is None,
{
    reveal_strlit(".");
    reveal_strlit("..");
    assert("."@ =~= seq!['.']);
    assert("."@ != ".."@) by {
        assert("."@.len() != ".."@.len());
    }
    assert(!"."@.contains('/'));
    assert(!".."@.contains('/'));
    let nothing = Seq::<char>::empty();
    behind_last_slash(directory, name);
    behind_last_slash(directory, nothing);
    behind_last_slash(directory, "."@);
    behind_last_slash(directory, ".."@);
    let n = directory.len() as int + 1;
    let named = directory.push('/') + name;
    assert(named.skip(n) =~= name);
    assert(name.skip(0) =~= name);
    let slashed = directory.push('/');
    assert(slashed + nothing =~= slashed);
    assert(slashed.skip(n) =~= nothing);
    assert(slashed.take(n - 1) =~= directory);
    let dotted = slashed.push('.');
    assert(dotted =~= slashed + "."@);
    assert(dotted.skip(n) =~= "."@);
    assert(dotted.take(n - 1) =~= directory);
    let upwards = slashed + ".."@;
    assert(upwards.skip(n) =~= ".."@);
    assert(".."@.skip(0) =~= ".."@);
    assert("."@.skip(0) =~= "."@);
    assert(nothing.skip(0) =~= nothing);
    assert(last_part(nothing) is None);
    assert(last_part("."@) is None);
}

/// Every one of the first ten files of a message with a base name is downloaded, under that name.
pub proof fn every_file_with_a_name_is_planned(names: Seq<Seq<char>>, index: int)
    requires
        0 <= index < names.len(),
        index < 10,
        base_name(names[index]) is Some,
    ensures
        fresh_downloads(names).plan.contains((index, base_name(names[index])->0)),
        fresh_downloads(names).at == 0,
        fresh_downloads(names).stored.len() == 0,
{
    planned_among_first(
        names,
        index,
        if names.len() <= 10 {
            names.len() as int
        } else {
            10
        },
    );
}

/// A file with a base name is among the downloads of the files up to it and beyond.
proof fn planned_among_first(names: Seq<Seq<char>>, index: int, n: int)
    requires
        0 <= index < n <= names.len(),
        base_name(names[index]) is Some,
    ensures
        downloads(names, n).contains((index, base_name(names[index])->0)),
    decreases n,
{
    let entry = (index, base_name(names[index])->0);
    let before = downloads(names, n - 1);
    if index < n - 1 {
        planned_among_first(names, index, n - 1);
        let i = choose|i: int| 0 <= i < before.len() && before[i] == entry;
        assert(downloads(names, n)[i] == entry);
    } else {
        assert(downloads(names, n)[before.len() as int] == entry);
    }
}

/// What is done about the files of a message: each file of the plan is downloaded in turn, and
/// written under its name where it is at most 20 MB large; the note in the end names those that
/// were written, and there is none without an inbox.
pub proof fn each_planned_file_is_taken_in_turn(
    download: Downloads<Seq<(int, Seq<char>)>, Seq<Seq<char>>>,
    event: DownloadEvent,
)
    requires
        download.wf(),
        download.awaits(event),
    ensures
        ({
            let (after, action) = download.next(event);
            let stored = if event == DownloadEvent::Written(true) {
                download.stored.push(download.plan[download.at as int].1)
            } else {
                download.stored
            };
            let next = if event is InboxMade {
                download.at as int
            } else {
                download.at + 1
            };
            &&& after.plan == download.plan
            &&& after.stored == stored
            &&& match event {
                DownloadEvent::InboxMade(false) => action == DownloadAction::Finish(
                    Seq::<char>::empty(),
                ),
                DownloadEvent::Downloaded(Some(size)) if size <= 20_971_520 => action
                    == DownloadAction::Write(download.plan[download.at as int].1) && after.at
                    == download.at,
                _ => {
                    &&& after.at == next
                    &&& next < download.plan.len() ==> action == DownloadAction::<
                        Seq<char>,
                    >::Download(download.plan[next].0 as usize)
                    &&& next >= download.plan.len() ==> action == DownloadAction::Finish(
                        note_of(stored),
                    )
                },
            }
        }),
{
}

/// A download waits for the report on what the driver was told to do, and for no other.
pub proof fn a_download_waits_for_its_report(
    names: Seq<Seq<char>>,
    download: Downloads<Seq<(int, Seq<char>)>, Seq<Seq<char>>>,
    event: DownloadEvent,
    next: DownloadEvent,
)
    requires
        download.awaits(event),
    ensures
        fresh_downloads(names).awaits(next) <==> next is InboxMade,
        ({
            let (after, action) = download.next(event);
            after.awaits(next) <==> match next {
                DownloadEvent::InboxMade(_) => false,
                DownloadEvent::Downloaded(_) => action is Download,
                DownloadEvent::Written(_) => action is Write,
            }
        }),
{
}

/// A path lies in a directory exactly where its parts are those of the directory and maybe more.
pub proof fn a_path_in_a_directory_begins_with_it(
    root: Seq<Seq<u8>>,
    rest: Seq<Seq<u8>>,
    path: Seq<Seq<u8>>,
)
    ensures
        lies_within(root, root + rest),
        lies_within(root, path) ==> path == root + path.skip(root.len() as int),
{
    assert((root + rest).take(root.len() as int) =~= root);
    if lies_within(root, path) {
        assert(path =~= path.take(root.len() as int) + path.skip(root.len() as int));
    }
}

/// What is done about the files that a reply attaches: each path is resolved in turn, read where it
/// lies in the work directory, and attached under the last part of the resolved path where it
/// holds something and at most 20 MB.
pub proof fn each_attached_file_is_taken_in_turn(
    attaching: Attaching<Seq<Seq<u8>>, Seq<char>, Seq<Seq<char>>, Seq<(Seq<char>, Seq<u8>)>>,
    event: AttachEvent<Seq<Seq<u8>>, Seq<char>, Seq<u8>>,
)
    requires
        attaching.wf(),
        attaching.awaits(event),
    ensures
        ({
            let (after, action) = attaching.next(event);
            let at = attaching.at as int;
            let takes_next = |n: int|
                if n < attaching.names.len() {
                    action == AttachAction::Resolve(attaching.names[n]) && after.at == n
                } else {
                    action is Finish
                };
            &&& after.names == attaching.names
            &&& match event {
                AttachEvent::RootResolved(Some(root)) => after.root == root && after.files
                    == attaching.files && takes_next(at),
                AttachEvent::RootResolved(None) => action is Finish && after.files
                    == attaching.files,
                AttachEvent::Resolved { parts, filename } => after.root == attaching.root
                    && after.files == attaching.files && if lies_within(attaching.root, parts) {
                    action is Read && after.filename == filename && after.at == at
                } else {
                    takes_next(at + 1)
                },
                AttachEvent::Unresolved => after.root == attaching.root && after.files
                    == attaching.files && takes_next(at + 1),
                AttachEvent::Read(bytes) => after.root == attaching.root && takes_next(at + 1) && (
                match (bytes, attaching.filename) {
                    (Some(bytes), Some(name)) if 0 < bytes.len() <= 20_971_520 => after.files
                        == attaching.files.push((name, bytes)),
                    _ => after.files == attaching.files,
                }),
            }
        }),
{
}

/// Reading attached files waits for the report on what the driver was told to do, and for no other.
pub proof fn attaching_waits_for_its_report(
    attaching: Attaching<Seq<Seq<u8>>, Seq<char>, Seq<Seq<char>>, Seq<(Seq<char>, Seq<u8>)>>,
    event: AttachEvent<Seq<Seq<u8>>, Seq<char>, Seq<u8>>,
    next: AttachEvent<Seq<Seq<u8>>, Seq<char>, Seq<u8>>,
)
    requires
        attaching.awaits(event),
    ensures
        ({
            let (after, action) = attaching.next(event);
            after.awaits(next) <==> match next {
                AttachEvent::RootResolved(_) => false,
                AttachEvent::Resolved { .. } | AttachEvent::Unresolved => action is Resolve,
                AttachEvent::Read(_) => action is Read,
            }
        }),
{
}

/// A voice message is refused at once where the channel says that it is larger than allowed, or
/// where nothing can transcribe it; one of the allowed size or of a size that is not known is
/// downloaded.
pub proof fn a_voice_message_of_the_allowed_size_is_taken(
    size: u64,
    limit: u64,
    configured: bool,
)
    ensures
        ({
            let known = VoicePreparation::<Seq<char>>::first(
                VoiceAttachment { file_size: Some(size) },
                limit,
                configured,
            ).1;
            let unknown = VoicePreparation::<Seq<char>>::first(
                VoiceAttachment { file_size: None },
                limit,
                configured,
            ).1;
            let unavailable = VoiceAction::Finish(
                VoiceResult::Refused {
                    event: "voice_not_configured",
                    reply: "Voice messages are unavailable. Set voice.openai_api_key in config or OPENAI_API_KEY, restart Push, or send text instead.",
                    detail: "OpenAI API key is not configured"@,
                },
            );
            &&& size > limit ==> known == VoiceAction::Finish(
                VoiceResult::Refused {
                    event: "voice_too_large",
                    reply: "That voice message is too large. The limit is 20 MB.",
                    detail: "voice message exceeds the 20 MB limit"@,
                },
            )
            &&& size <= limit && configured ==> known is Download
            &&& size <= limit && !configured ==> known == unavailable
            &&& configured ==> unknown is Download
            &&& !configured ==> unknown == unavailable
        }),
{
}

/// A voice message that is downloaded is transcribed, the transcript is stored, and then it is what
/// was said, letter for letter. Where a step fails, the sender is told which, and the log why.
pub proof fn a_voice_message_becomes_its_transcript(
    voice: VoicePreparation<Seq<char>>,
    text: Seq<char>,
    error: Seq<char>,
)
    ensures
        voice.next(VoiceEvent::Downloaded).1 is Transcribe,
        voice.next(VoiceEvent::Transcribed(text)).1 == VoiceAction::Store(text),
        voice.next(VoiceEvent::Transcribed(text)).0.next(VoiceEvent::Stored).1
            == VoiceAction::Finish(VoiceResult::Transcript(text)),
        voice.next(VoiceEvent::StoringFailed(error)).1 == VoiceAction::Finish(
            VoiceResult::HistoryFailed(error),
        ),
        voice.next(VoiceEvent::DownloadFailed(error)).1 == VoiceAction::Finish(
            VoiceResult::Refused {
                event: "voice_download_failed",
                reply: "I could not download that voice message. Please try again or send text.",
                detail: "voice download failed: "@ + error,
            },
        ),
        voice.next(VoiceEvent::TranscriptionFailed(error)).1 == VoiceAction::Finish(
            VoiceResult::Refused {
                event: "voice_transcription_failed",
                reply: "I could not transcribe that voice message. Please try again or send text.",
                detail: "voice transcription failed: "@ + error,
            },
        ),
{
}

/// Whether a report answers an action about a voice message.
pub open spec fn reports_on(
    action: VoiceAction<Seq<char>>,
    event: VoiceEvent<Seq<char>>,
) -> bool {
    match event {
        VoiceEvent::Downloaded | VoiceEvent::DownloadFailed(_) => action is Download,
        VoiceEvent::Transcribed(_) | VoiceEvent::TranscriptionFailed(_) => action is Transcribe,
        VoiceEvent::Stored | VoiceEvent::StoringFailed(_) => action is Store,
    }
}

/// The preparation of a voice message waits for the reports on what the driver was told to do, and
/// for no others.
pub proof fn a_voice_preparation_waits_for_its_report(
    attachment: VoiceAttachment,
    limit: u64,
    configured: bool,
    voice: VoicePreparation<Seq<char>>,
    event: VoiceEvent<Seq<char>>,
    next: VoiceEvent<Seq<char>>,
)
    ensures
        ({
            let (first, action) = VoicePreparation::<Seq<char>>::first(
                attachment,
                limit,
                configured,
            );
            first.awaits(next) <==> reports_on(action, next)
        }),
        voice.next(event).0.awaits(next) <==> reports_on(voice.next(event).1, next),
{
}

/// No more than ten files of a message are downloaded, each at most once and in their order.
pub proof fn ten_files_are_downloaded_at_most(names: Seq<Seq<char>>, i: int, j: int)
    requires
        0 <= i < j < fresh_downloads(names).plan.len(),
    ensures
        fresh_downloads(names).plan.len() <= 10,
        0 <= fresh_downloads(names).plan[i].0 < fresh_downloads(names).plan[j].0 < 10,
{
    downloads_are_bounded(
        names,
        if names.len() <= 10 {
            names.len() as int
        } else {
            10
        },
    );
}

} // verus!
