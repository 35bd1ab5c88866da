//! Files that come with a message, and files that the agent attaches to its reply.

use crate::chunk::concatenated;
use crate::text::{
    after_last, after_last_is_last, chars_of, contains, find, find_after_last, first_match,
    first_match_in_rest, first_match_is_first, join, joined, occurs_at, same, texts, trim,
    trim_is_idempotent, trimmed,
};
use vstd::prelude::*;

verus! {

/// Largest agent-produced file Push will attach to a reply.
pub const MAX_ATTACH_BYTES: usize = 20_971_520;

/// Most attachments downloaded for a single inbound message.
pub const MAX_INBOUND_FILES: usize = 10;

/// Largest attachment that is kept of an inbound message.
pub const MAX_INBOUND_BYTES: usize = 20_971_520;

/// What opens an attach marker.
pub open spec fn marker_open() -> Seq<char> {
    "[[attach:"@
}

/// What closes an attach marker.
pub open spec fn marker_close() -> Seq<char> {
    "]]"@
}

/// The first marker at or after a position: where it opens and where its path ends. An opening
/// that nothing closes is no marker.
pub open spec fn next_marker(s: Seq<char>, pos: int) -> Option<(int, int)> {
    match first_match(s, marker_open(), pos) {
        Some(open) => match first_match(s, marker_close(), open + marker_open().len()) {
            Some(close) => Some((open, close)),
            None => None,
        },
        None => None,
    }
}

/// A marker lies after the position, and within the text.
pub proof fn next_marker_bounds(s: Seq<char>, pos: int)
    requires
        0 <= pos,
    ensures
        next_marker(s, pos) matches Some((open, close)) ==> pos <= open && open
            + marker_open().len() <= close && close + marker_close().len() <= s.len(),
        marker_open().len() == 9,
        marker_close().len() == 2,
{
    reveal_strlit("[[attach:");
    reveal_strlit("]]");
    first_match_is_first(s, marker_open(), pos);
    if let Some(open) = first_match(s, marker_open(), pos) {
        first_match_is_first(s, marker_close(), open + marker_open().len());
    }
}

/// The trimmed paths in the markers from a position on, without the empty ones.
pub open spec fn paths_from(s: Seq<char>, pos: int) -> Seq<Seq<char>>
    decreases s.len() - pos,
    when pos >= 0
{
    proof {
        next_marker_bounds(s, pos);
    }
    match next_marker(s, pos) {
        Some((open, close)) => {
            let path = trimmed(s.subrange(open + marker_open().len(), close));
            let rest = paths_from(s, close + marker_close().len());
            if path.len() > 0 {
                seq![path] + rest
            } else {
                rest
            }
        },
        None => Seq::empty(),
    }
}

/// The pieces of text around the markers from a position on. What follows an opening that nothing
/// closes is in none of them.
pub open spec fn pieces_from(s: Seq<char>, pos: int) -> Seq<Seq<char>>
    decreases s.len() - pos,
    when pos >= 0
{
    proof {
        next_marker_bounds(s, pos);
    }
    match next_marker(s, pos) {
        Some((open, close)) => seq![s.subrange(pos, open)] + pieces_from(
            s,
            close + marker_close().len(),
        ),
        None => match first_match(s, marker_open(), pos) {
            Some(open) => seq![s.subrange(pos, open)],
            None => seq![s.subrange(pos, s.len() as int)],
        },
    }
}

/// The paths that a reply attaches.
pub open spec fn attached_paths(s: Seq<char>) -> Seq<Seq<char>> {
    paths_from(s, 0)
}

/// A reply without its attach markers, trimmed.
pub open spec fn without_markers(s: Seq<char>) -> Seq<char> {
    trimmed(concatenated(pieces_from(s, 0)))
}

/// A reply without the opening of a marker attaches nothing, and is only trimmed.
pub proof fn a_plain_reply_is_kept(s: Seq<char>)
    requires
        !contains(s, marker_open()),
    ensures
        attached_paths(s) == Seq::<Seq<char>>::empty(),
        without_markers(s) == trimmed(s),
{
    first_match_is_first(s, marker_open(), 0);
    assert(s.subrange(0, s.len() as int) =~= s);
    assert(pieces_from(s, 0) =~= seq![s]);
    assert(seq![s].skip(1) =~= Seq::<Seq<char>>::empty());
    assert(concatenated(Seq::<Seq<char>>::empty()) =~= Seq::<char>::empty());
    assert(concatenated(seq![s]) =~= s);
}

/// Every path that a reply attaches is trimmed and not empty.
pub proof fn attached_paths_are_clean(s: Seq<char>, pos: int)
    requires
        pos >= 0,
    ensures
        forall|i: int|
            0 <= i < paths_from(s, pos).len() ==> {
                let path = #[trigger] paths_from(s, pos)[i];
                path.len() > 0 && trimmed(path) == path
            },
    decreases s.len() - pos,
{
    next_marker_bounds(s, pos);
    if let Some((open, close)) = next_marker(s, pos) {
        let raw = s.subrange(open + marker_open().len(), close);
        attached_paths_are_clean(s, close + marker_close().len());
        trim_is_idempotent(raw);
        let rest = paths_from(s, close + marker_close().len());
        assert forall|i: int| 0 <= i < paths_from(s, pos).len() implies {
            let path = #[trigger] paths_from(s, pos)[i];
            path.len() > 0 && trimmed(path) == path
        } by {
            if trimmed(raw).len() > 0 {
                if i > 0 {
                    assert(paths_from(s, pos)[i] == rest[i - 1]);
                }
            } else {
                assert(paths_from(s, pos)[i] == rest[i]);
            }
        }
    }
}

/// No piece of text that is kept holds the opening of a marker.
pub proof fn kept_pieces_hold_no_marker(s: Seq<char>, pos: int)
    requires
        0 <= pos <= s.len(),
    ensures
        forall|i: int|
            0 <= i < pieces_from(s, pos).len() ==> !contains(
                #[trigger] pieces_from(s, pos)[i],
                marker_open(),
            ),
    decreases s.len() - pos,
{
    next_marker_bounds(s, pos);
    first_match_is_first(s, marker_open(), pos);
    let end = match first_match(s, marker_open(), pos) {
        Some(open) => open,
        None => s.len() as int,
    };
    let piece = s.subrange(pos, end);
    assert(!contains(piece, marker_open())) by {
        if contains(piece, marker_open()) {
            let at = choose|at: int| occurs_at(piece, marker_open(), at);
            assert(s.subrange(pos + at, pos + at + marker_open().len()) =~= piece.subrange(
                at,
                at + marker_open().len(),
            ));
            assert(occurs_at(s, marker_open(), pos + at));
        }
    }
    if let Some((open, close)) = next_marker(s, pos) {
        kept_pieces_hold_no_marker(s, close + marker_close().len());
        let rest = pieces_from(s, close + marker_close().len());
        assert forall|i: int| 0 <= i < pieces_from(s, pos).len() implies !contains(
            #[trigger] pieces_from(s, pos)[i],
            marker_open(),
        ) by {
            if i > 0 {
                assert(pieces_from(s, pos)[i] == rest[i - 1]);
            }
        }
    }
}

/// Reading from a position on is reading the rest of the text.
proof fn markers_in_rest(s: Seq<char>, start: int, pos: int)
    requires
        0 <= start <= s.len(),
        0 <= pos <= s.len() - start,
    ensures
        paths_from(s, start + pos) == paths_from(s.skip(start), pos),
        pieces_from(s, start + pos) == pieces_from(s.skip(start), pos),
    decreases s.len() - start - pos,
{
    let rest = s.skip(start);
    next_marker_bounds(rest, pos);
    next_marker_bounds(s, start + pos);
    first_match_in_rest(s, marker_open(), start, pos);
    first_match_is_first(rest, marker_open(), pos);
    match first_match(rest, marker_open(), pos) {
        Some(open) => {
            first_match_in_rest(s, marker_close(), start, open + marker_open().len());
            assert(s.subrange(start + pos, start + open) =~= rest.subrange(pos, open));
            if let Some((_, close)) = next_marker(rest, pos) {
                assert(s.subrange(start + open + marker_open().len(), start + close)
                    =~= rest.subrange(open + marker_open().len(), close));
                markers_in_rest(s, start, close + marker_close().len());
            }
        },
        None => {
            assert(s.subrange(start + pos, s.len() as int) =~= rest.subrange(
                pos,
                rest.len() as int,
            ));
        },
    }
}

/// A marker is taken out of a reply and gives its path: where the first marker of a reply stands
/// between `front` and `back`, the reply keeps `front` and what `back` keeps, and attaches the
/// path, unless it is empty, before what `back` attaches.
pub proof fn a_marker_is_taken_out(front: Seq<char>, path: Seq<char>, back: Seq<char>)
    requires
        next_marker(front + marker_open() + path + marker_close() + back, 0) == Some(
            (front.len() as int, (front.len() + marker_open().len() + path.len()) as int),
        ),
    ensures
        ({
            let s = front + marker_open() + path + marker_close() + back;
            &&& pieces_from(s, 0) == seq![front] + pieces_from(back, 0)
            &&& attached_paths(s) == (if trimmed(path).len() > 0 {
                seq![trimmed(path)] + attached_paths(back)
            } else {
                attached_paths(back)
            })
        }),
{
    let s = front + marker_open() + path + marker_close() + back;
    let open = front.len() as int;
    let close = open + marker_open().len() + path.len();
    next_marker_bounds(s, 0);
    assert(s.subrange(0, open) =~= front);
    assert(s.subrange(open + marker_open().len(), close) =~= path);
    let end = close + marker_close().len();
    assert(s.skip(end) =~= back);
    markers_in_rest(s, end, 0);
}

/// Extracts the paths from `[[attach: <path>]]` markers in the agent reply.
pub fn parse_attach_markers(text: &str) -> (paths: Vec<String>)
    ensures
        texts(paths@) == attached_paths(text@),
{
    let chars = chars_of(text);
    let opening = chars_of("[[attach:");
    let closing = chars_of("]]");
    let mut paths: Vec<String> = Vec::new();
    let mut pos: usize = 0;
    proof {
        next_marker_bounds(text@, 0);
        assert(chars.len() == text@.len());
        assert(texts(paths@) + attached_paths(text@) =~= attached_paths(text@));
    }
    loop
        invariant
            texts(paths@) + paths_from(text@, pos as int) == attached_paths(text@),
            chars@ == text@,
            opening@ == marker_open(),
            closing@ == marker_close(),
            opening@.len() == 9,
            closing@.len() == 2,
            pos <= text@.len(),
            text@.len() <= usize::MAX,
        decreases text@.len() - pos,
    {
        let ghost before = texts(paths@);
        let open = match find(&chars, &opening, pos) {
            Some(open) => open,
            None => {
                assert(before + Seq::<Seq<char>>::empty() =~= before);
                return paths;
            },
        };
        let start: usize = open + opening.len();
        let close = match find(&chars, &closing, start) {
            Some(close) => close,
            None => {
                assert(before + Seq::<Seq<char>>::empty() =~= before);
                return paths;
            },
        };
        let path = trim(text.substring_char(start, close));
        if !path.is_empty() {
            paths.push(path.to_owned());
            assert(texts(paths@) =~= before.push(path@));
            assert(before.push(path@) + paths_from(text@, close + 2) =~= before + (seq![path@]
                + paths_from(text@, close + 2)));
        }
        pos = close + closing.len();
    }
}

/// Removes every `[[attach: ...]]` marker from the reply text.
pub fn strip_attach_markers(text: &str) -> (kept: String)
    ensures
        kept@ == without_markers(text@),
{
    let chars = chars_of(text);
    let count: usize = chars.len();
    let opening = chars_of("[[attach:");
    let closing = chars_of("]]");
    let mut out = String::new();
    let mut pos: usize = 0;
    proof {
        next_marker_bounds(text@, 0);
        assert(out@ + concatenated(pieces_from(text@, 0)) =~= concatenated(pieces_from(text@, 0)));
    }
    loop
        invariant
            out@ + concatenated(pieces_from(text@, pos as int)) == concatenated(
                pieces_from(text@, 0),
            ),
            chars@ == text@,
            opening@ == marker_open(),
            closing@ == marker_close(),
            opening@.len() == 9,
            closing@.len() == 2,
            pos <= text@.len(),
            count == text@.len(),
        decreases text@.len() - pos,
    {
        let ghost before = out@;
        let ghost pieces = pieces_from(text@, pos as int);
        let found = find(&chars, &opening, pos);
        let end: usize = match found {
            Some(open) => open,
            None => count,
        };
        out.append(text.substring_char(pos, end));
        let closed = match found {
            Some(open) => find(&chars, &closing, open + opening.len()),
            None => None,
        };
        proof {
            let piece = text@.subrange(pos as int, end as int);
            assert(pieces[0] == piece);
            match closed {
                Some(close) => {
                    assert(pieces.skip(1) =~= pieces_from(text@, close + 2));
                    assert(before + piece + concatenated(pieces_from(text@, close + 2)) =~= before
                        + concatenated(pieces));
                },
                None => {
                    assert(pieces.skip(1) =~= Seq::<Seq<char>>::empty());
                    assert(concatenated(Seq::<Seq<char>>::empty()) =~= Seq::<char>::empty());
                    assert(before + piece =~= before + concatenated(pieces));
                },
            }
        }
        match closed {
            Some(close) => {
                pos = close + closing.len();
            },
            None => {
                return trim(out.as_str()).to_owned();
            },
        }
    }
}

/// The last part of a path whose parts stand between slashes. Empty parts and parts that are a
/// single dot do not count.
pub open spec fn last_part(path: Seq<char>) -> Option<Seq<char>>
    decreases path.len(),
{
    let start = after_last(path, '/', path.len() as int);
    let part = path.skip(start);
    if part.len() > 0 && part != "."@ {
        Some(part)
    } else if 0 < start <= path.len() {
        last_part(path.take(start - 1))
    } else {
        None
    }
}

/// The safe base name of a path: its last part, unless that leads upwards.
pub open spec fn base_name(path: Seq<char>) -> Option<Seq<char>> {
    match last_part(path) {
        Some(part) => if part == ".."@ {
            None
        } else {
            Some(part)
        },
        None => None,
    }
}

/// A base name is not empty, names neither the directory nor its parent, and holds no slash, so
/// that a file of that name stays in its directory.
pub proof fn base_name_stays_in_directory(path: Seq<char>)
    ensures
        base_name(path) matches Some(name) ==> name.len() > 0 && name != "."@ && name != ".."@
            && !name.contains('/'),
    decreases path.len(),
{
    let start = after_last(path, '/', path.len() as int);
    after_last_is_last(path, '/', path.len() as int);
    let part = path.skip(start);
    if part.len() > 0 && part != "."@ {
        assert forall|i: int| 0 <= i < part.len() implies part[i] != '/' by {
            assert(part[i] == path[start + i]);
        }
    } else if start > 0 {
        base_name_stays_in_directory(path.take(start - 1));
    }
}

/// Reduces a channel-supplied filename to a safe base name inside `inbox/`.
pub fn sanitize_filename(name: &str) -> (base: Option<String>)
    ensures
        match base {
            Some(b) => base_name(name@) == Some(b@),
            None => base_name(name@) is None,
        },
{
    let chars = chars_of(name);
    let mut end: usize = chars.len();
    assert(name@.take(name@.len() as int) =~= name@);
    loop
        invariant
            chars@ == name@,
            end <= name@.len(),
            last_part(name@) == last_part(name@.take(end as int)),
        decreases end,
    {
        let start = find_after_last(&chars, '/', end);
        let ghost path = name@.take(end as int);
        proof {
            after_last_of_prefix(name@, '/', end as int, end as int);
        }
        assert(path.skip(start as int) =~= name@.subrange(start as int, end as int));
        let part = name.substring_char(start, end);
        if !part.is_empty() && !same(part, ".") {
            if same(part, "..") {
                return None;
            }
            return Some(part.to_owned());
        }
        if start == 0 {
            return None;
        }
        assert(path.take(start - 1) =~= name@.take(start - 1));
        end = start - 1;
    }
}

/// What stands after a prefix does not matter to a search in it.
proof fn after_last_of_prefix(s: Seq<char>, c: char, end: int, n: int)
    requires
        0 <= n <= end <= s.len(),
    ensures
        after_last(s, c, n) == after_last(s.take(end), c, n),
    decreases n,
{
    if n > 0 {
        after_last_of_prefix(s, c, end, n - 1);
    }
}

/// Which of the first `n` files to download, and under which name to store each.
pub open spec fn downloads(names: Seq<Seq<char>>, n: int) -> Seq<(int, Seq<char>)>
    decreases n,
{
    if n <= 0 {
        Seq::empty()
    } else {
        match base_name(names[n - 1]) {
            Some(name) => downloads(names, n - 1).push((n - 1, name)),
            None => downloads(names, n - 1),
        }
    }
}

/// The indices and names of a download plan.
pub open spec fn plan_view(plan: Seq<(usize, String)>) -> Seq<(int, Seq<char>)> {
    plan.map_values(|entry: (usize, String)| (entry.0 as int, entry.1@))
}

/// Plans the downloads for a message: the first files, as many as are allowed, without those
/// whose name is not safe.
pub fn plan_downloads(names: &Vec<String>) -> (plan: Vec<(usize, String)>)
    ensures
        plan_view(plan@) == downloads(
            texts(names@),
            if names@.len() <= MAX_INBOUND_FILES {
                names@.len() as int
            } else {
                MAX_INBOUND_FILES as int
            },
        ),
{
    let n: usize = if names.len() <= MAX_INBOUND_FILES {
        names.len()
    } else {
        MAX_INBOUND_FILES
    };
    let mut plan: Vec<(usize, String)> = Vec::new();
    let mut i: usize = 0;
    while i < n
        invariant
            i <= n <= names@.len(),
            plan_view(plan@) == downloads(texts(names@), i as int),
        decreases n - i,
    {
        let ghost before = plan_view(plan@);
        assert(texts(names@)[i as int] == names@[i as int]@);
        if let Some(name) = sanitize_filename(names[i].as_str()) {
            let ghost entry = (i as int, name@);
            plan.push((i, name));
            assert(plan_view(plan@) =~= before.push(entry));
        }
        i = i + 1;
    }
    plan
}

/// Every planned download is one of the first files, in their order, each at most once, under a
/// safe name; there are no more than are allowed.
pub proof fn downloads_are_bounded(names: Seq<Seq<char>>, n: int)
    requires
        0 <= n <= names.len(),
    ensures
        downloads(names, n).len() <= n,
        forall|i: int|
            0 <= i < downloads(names, n).len() ==> {
                let entry = #[trigger] downloads(names, n)[i];
                0 <= entry.0 < n && base_name(names[entry.0]) == Some(entry.1)
            },
        forall|i: int, j: int|
            0 <= i < j < downloads(names, n).len() ==> (#[trigger] downloads(names, n)[i]).0 < (
            #[trigger] downloads(names, n)[j]).0,
    decreases n,
{
    if n > 0 {
        downloads_are_bounded(names, n - 1);
    }
}

/// The lines of the note about stored files.
pub open spec fn file_lines(names: Seq<Seq<char>>) -> Seq<Seq<char>> {
    names.map_values(|name: Seq<char>| "- inbox/"@ + name)
}

/// The note about the files that were stored; empty where none was.
pub open spec fn note_of(names: Seq<Seq<char>>) -> Seq<char> {
    if names.len() == 0 {
        Seq::empty()
    } else {
        "The user attached the following file(s) in the working directory:\n"@ + joined(
            file_lines(names),
            "\n"@,
        )
    }
}

/// Writes the note about the files that were stored.
pub fn files_note(names: &Vec<String>) -> (note: String)
    ensures
        note@ == note_of(texts(names@)),
{
    if names.len() == 0 {
        return String::new();
    }
    let mut lines: Vec<String> = Vec::new();
    let mut i: usize = 0;
    while i < names.len()
        invariant
            i <= names@.len(),
            texts(lines@) == file_lines(texts(names@)).take(i as int),
        decreases names@.len() - i,
    {
        let ghost before = texts(lines@);
        let mut line = "- inbox/".to_owned();
        line.append(names[i].as_str());
        lines.push(line);
        assert(texts(lines@) =~= before.push(line@));
        assert(file_lines(texts(names@)).take(i + 1) =~= before.push(line@));
        i = i + 1;
    }
    assert(file_lines(texts(names@)).take(i as int) =~= file_lines(texts(names@)));
    let mut note = "The user attached the following file(s) in the working directory:\n".to_owned();
    note.append(join(&lines, "\n").as_str());
    note
}

/// A message with the note about its files behind it.
pub open spec fn text_with_note(text: Seq<char>, note: Seq<char>) -> Seq<char> {
    if note.len() == 0 {
        text
    } else if trimmed(text).len() == 0 {
        note
    } else {
        text + "\n\n"@ + note
    }
}

/// Puts the note about its files behind a message; the note alone where the message is blank.
pub fn append_note(text: &str, note: &str) -> (both: String)
    ensures
        both@ == text_with_note(text@, note@),
{
    if note.is_empty() {
        text.to_owned()
    } else if trim(text).is_empty() {
        note.to_owned()
    } else {
        let mut both = text.to_owned();
        both.append("\n\n");
        both.append(note);
        both
    }
}

/// A file that is attached to a reply.
#[derive(Debug)]
pub struct OutboundFile {
    pub filename: String,
    pub bytes: Vec<u8>,
}

/// The parts of paths, as bytes.
pub open spec fn path_parts(parts: Seq<Vec<u8>>) -> Seq<Seq<u8>> {
    parts.map_values(|part: Vec<u8>| part@)
}

/// Whether a path lies in a directory, or is it: whether its first parts are those of the
/// directory.
pub open spec fn lies_within(root: Seq<Seq<u8>>, path: Seq<Seq<u8>>) -> bool {
    root.len() <= path.len() && path.take(root.len() as int) == root
}

/// Whether two parts of paths are the same.
fn same_part(a: &Vec<u8>, b: &Vec<u8>) -> (yes: bool)
    ensures
        yes == (a@ == b@),
{
    if a.len() != b.len() {
        return false;
    }
    let mut i: usize = 0;
    while i < a.len()
        invariant
            i <= a@.len(),
            a@.len() == b@.len(),
            forall|j: int| 0 <= j < i ==> a@[j] == b@[j],
        decreases a@.len() - i,
    {
        if a[i] != b[i] {
            return false;
        }
        i = i + 1;
    }
    assert(a@ =~= b@);
    true
}

/// Whether a resolved path stays in the work directory.
pub fn path_within(root: &Vec<Vec<u8>>, path: &Vec<Vec<u8>>) -> (yes: bool)
    ensures
        yes == lies_within(path_parts(root@), path_parts(path@)),
{
    if root.len() > path.len() {
        return false;
    }
    let mut i: usize = 0;
    while i < root.len()
        invariant
            i <= root@.len() <= path@.len(),
            forall|j: int| 0 <= j < i ==> path_parts(path@)[j] == path_parts(root@)[j],
        decreases root@.len() - i,
    {
        if !same_part(&root[i], &path[i]) {
            assert(path_parts(path@).take(root@.len() as int)[i as int] != path_parts(root@)[
                i as int
            ]);
            return false;
        }
        i = i + 1;
    }
    assert(path_parts(path@).take(root@.len() as int) =~= path_parts(root@));
    true
}

/// Keeps a file that was read for a reply, unless it is empty, too large or without a readable
/// name.
pub fn keep_outbound_file(filename: Option<String>, bytes: Vec<u8>) -> (file: Option<OutboundFile>)
    ensures
        file is Some <==> filename is Some && 0 < bytes@.len() <= MAX_ATTACH_BYTES,
        file matches Some(f) ==> f.filename == filename->0 && f.bytes == bytes,
{
    if bytes.len() == 0 || bytes.len() > MAX_ATTACH_BYTES {
        return None;
    }
    match filename {
        Some(filename) => Some(OutboundFile { filename, bytes }),
        None => None,
    }
}

} // verus!
