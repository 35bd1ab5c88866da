//! Taking in the files of a message, and reading the files that a reply attaches.
//!
//! Like a turn, each of these decides what is done next; its driver does it and reports back.

use crate::gateway::attachments::{
    base_name, base_name_stays_in_directory, downloads, downloads_are_bounded, files_note,
    keep_outbound_file, lies_within, note_of, path_parts, path_within, plan_downloads, plan_view,
    OutboundFile, MAX_ATTACH_BYTES, MAX_INBOUND_BYTES, MAX_INBOUND_FILES,
};
use crate::text::{maybe, texts};
use vstd::prelude::*;

verus! {

/// What is done next about the files of a message. The text type `S` is `String` in the program and
/// a sequence of characters in contracts.
#[derive(Debug)]
pub enum DownloadAction<S> {
    /// Make the `inbox/` folder.
    MakeInbox,
    /// Download the file of this index.
    Download(usize),
    /// Write what was downloaded into the folder, under this name.
    Write(S),
    /// Stop; this is the note about the files that were stored.
    Finish(S),
}

impl View for DownloadAction<String> {
    type V = DownloadAction<Seq<char>>;

    open spec fn view(&self) -> DownloadAction<Seq<char>> {
        match self {
            DownloadAction::MakeInbox => DownloadAction::MakeInbox,
            DownloadAction::Download(index) => DownloadAction::Download(*index),
            DownloadAction::Write(name) => DownloadAction::Write(name@),
            DownloadAction::Finish(note) => DownloadAction::Finish(note@),
        }
    }
}

/// What the driver reports.
#[derive(Debug, Clone, Copy, PartialEq, Eq, Structural)]
pub enum DownloadEvent {
    InboxMade(bool),
    /// The size of what was downloaded, if that went well.
    Downloaded(Option<usize>),
    Written(bool),
}

/// What the download of files waits for.
#[derive(Debug, Clone, Copy, PartialEq, Eq, Structural)]
pub enum DownloadStage {
    MakingInbox,
    Downloading,
    Writing,
    Ended,
}

/// The download of the files of one message. `P` is the type of a plan and `L` that of a list of
/// texts.
#[derive(Debug)]
pub struct Downloads<P, L> {
    /// Which files to download, and under which names to store them.
    pub plan: P,
    /// How much of the plan is done.
    pub at: usize,
    /// The names of the files that were stored.
    pub stored: L,
    pub stage: DownloadStage,
}

impl View for Downloads<Vec<(usize, String)>, Vec<String>> {
    type V = Downloads<Seq<(int, Seq<char>)>, Seq<Seq<char>>>;

    open spec fn view(&self) -> Downloads<Seq<(int, Seq<char>)>, Seq<Seq<char>>> {
        Downloads {
            plan: plan_view(self.plan@),
            at: self.at,
            stored: texts(self.stored@),
            stage: self.stage,
        }
    }
}

impl Downloads<Seq<(int, Seq<char>)>, Seq<Seq<char>>> {
    /// What holds of every download that `begin` and `step` give: the plan names files of the
    /// message, and what was stored is part of what the plan has behind it.
    pub open spec fn wf(self) -> bool {
        &&& self.at <= self.plan.len() <= MAX_INBOUND_FILES
        &&& forall|i: int| 0 <= i < self.plan.len() ==> 0 <= (#[trigger] self.plan[i]).0 <= usize::MAX
        &&& self.stage is Downloading || self.stage is Writing ==> self.at < self.plan.len()
        &&& self.stored.len() <= self.at
        &&& forall|i: int|
            0 <= i < self.stored.len() ==> exists|j: int|
                0 <= j < self.at && #[trigger] self.plan[j].1 == #[trigger] self.stored[i]
    }

    /// The download about to take the next file of the plan, or at its end.
    pub open spec fn go_on(self) -> (
        Downloads<Seq<(int, Seq<char>)>, Seq<Seq<char>>>,
        DownloadAction<Seq<char>>,
    ) {
        if self.at < self.plan.len() {
            (
                Downloads { stage: DownloadStage::Downloading, ..self },
                DownloadAction::Download(self.plan[self.at as int].0 as usize),
            )
        } else {
            (
                Downloads { stage: DownloadStage::Ended, ..self },
                DownloadAction::Finish(note_of(self.stored)),
            )
        }
    }

    /// The download past the file in hand.
    pub open spec fn past(self) -> Downloads<Seq<(int, Seq<char>)>, Seq<Seq<char>>> {
        Downloads { at: (self.at + 1) as usize, ..self }
    }

    /// Whether the download waits for a report of this kind.
    pub open spec fn awaits(self, event: DownloadEvent) -> bool {
        match event {
            DownloadEvent::InboxMade(_) => self.stage is MakingInbox,
            DownloadEvent::Downloaded(_) => self.stage is Downloading,
            DownloadEvent::Written(_) => self.stage is Writing,
        }
    }

    /// The download after a report, and what to do next. A file that fails, or is too large, is
    /// passed over.
    pub open spec fn next(self, event: DownloadEvent) -> (
        Downloads<Seq<(int, Seq<char>)>, Seq<Seq<char>>>,
        DownloadAction<Seq<char>>,
    ) {
        match event {
            DownloadEvent::InboxMade(true) => self.go_on(),
            DownloadEvent::InboxMade(false) => (
                Downloads { stage: DownloadStage::Ended, ..self },
                DownloadAction::Finish(Seq::empty()),
            ),
            DownloadEvent::Downloaded(size) => if size is Some && size->0 <= MAX_INBOUND_BYTES {
                (
                    Downloads { stage: DownloadStage::Writing, ..self },
                    DownloadAction::Write(self.plan[self.at as int].1),
                )
            } else {
                self.past().go_on()
            },
            DownloadEvent::Written(true) => (Downloads {
                stored: self.stored.push(self.plan[self.at as int].1),
                ..self.past()
            }).go_on(),
            DownloadEvent::Written(false) => self.past().go_on(),
        }
    }

    /// The most reports that a download takes until it ends.
    pub open spec fn reports_left(self) -> int {
        let left = 2 * (self.plan.len() - self.at);
        match self.stage {
            DownloadStage::MakingInbox => left + 1,
            DownloadStage::Downloading => left,
            DownloadStage::Writing => left - 1,
            DownloadStage::Ended => 0,
        }
    }
}

/// The download of the files of these names, before it has begun.
pub open spec fn fresh_downloads(names: Seq<Seq<char>>) -> Downloads<
    Seq<(int, Seq<char>)>,
    Seq<Seq<char>>,
> {
    Downloads {
        plan: downloads(
            names,
            if names.len() <= MAX_INBOUND_FILES {
                names.len() as int
            } else {
                MAX_INBOUND_FILES as int
            },
        ),
        at: 0,
        stored: Seq::empty(),
        stage: DownloadStage::MakingInbox,
    }
}

/// A report keeps a download what it is, and brings it nearer to its end: it takes no more than two
/// reports for each of at most ten files, and one for the folder.
pub proof fn a_download_ends(
    download: Downloads<Seq<(int, Seq<char>)>, Seq<Seq<char>>>,
    event: DownloadEvent,
)
    requires
        download.wf(),
        download.awaits(event),
    ensures
        download.next(event).0.wf(),
        download.next(event).0.plan == download.plan,
        0 <= download.next(event).0.reports_left() < download.reports_left() <= 21,
        download.next(event).0.stage is Ended <==> download.next(event).1 is Finish,
{
    let after = download.next(event).0;
    assert forall|i: int| 0 <= i < after.stored.len() implies exists|j: int|
        0 <= j < after.at && #[trigger] after.plan[j].1 == #[trigger] after.stored[i] by {
        if i < download.stored.len() {
            assert(after.stored[i] == download.stored[i]);
            let j = choose|j: int|
                0 <= j < download.at && #[trigger] download.plan[j].1 == download.stored[i];
            assert(after.plan[j].1 == after.stored[i]);
        } else {
            assert(after.plan[download.at as int].1 == after.stored[i]);
        }
    }
}

/// Files are written only into the folder itself: every name of a plan is a safe base name of one of
/// the first files of the message, so that no file of a message can be stored elsewhere.
pub proof fn files_are_stored_in_the_inbox(names: Seq<Seq<char>>, i: int)
    requires
        0 <= i < fresh_downloads(names).plan.len(),
    ensures
        fresh_downloads(names).plan.len() <= MAX_INBOUND_FILES,
        ({
            let (index, name) = fresh_downloads(names).plan[i];
            &&& 0 <= index < names.len()
            &&& index < MAX_INBOUND_FILES
            &&& base_name(names[index]) == Some(name)
            &&& name.len() > 0 && name != "."@ && name != ".."@ && !name.contains('/')
        }),
{
    let n = if names.len() <= MAX_INBOUND_FILES {
        names.len() as int
    } else {
        MAX_INBOUND_FILES as int
    };
    downloads_are_bounded(names, n);
    base_name_stays_in_directory(names[fresh_downloads(names).plan[i].0]);
}

impl Downloads<Vec<(usize, String)>, Vec<String>> {
    /// Starts the download of the files of these names.
    pub fn begin(names: &Vec<String>) -> (begun: (
        Downloads<Vec<(usize, String)>, Vec<String>>,
        DownloadAction<String>,
    ))
        ensures
            begun.0@ == fresh_downloads(texts(names@)),
            begun.0@.wf(),
            begun.1@ == DownloadAction::<Seq<char>>::MakeInbox,
    {
        let plan = plan_downloads(names);
        let download = Downloads {
            plan,
            at: 0,
            stored: Vec::new(),
            stage: DownloadStage::MakingInbox,
        };
        proof {
            assert(texts(download.stored@) =~= Seq::<Seq<char>>::empty());
            let n = if names@.len() <= MAX_INBOUND_FILES {
                names@.len() as int
            } else {
                MAX_INBOUND_FILES as int
            };
            downloads_are_bounded(texts(names@), n);
            assert forall|i: int| 0 <= i < download@.plan.len() implies 0 <= (
            #[trigger] download@.plan[i]).0 <= usize::MAX by {
                assert(download@.plan[i].0 == download.plan@[i].0 as int);
            }
        }
        (download, DownloadAction::MakeInbox)
    }

    /// Whether the download waits for a report of this kind.
    pub fn is_awaiting(&self, event: &DownloadEvent) -> (yes: bool)
        ensures
            yes == self@.awaits(*event),
    {
        match event {
            DownloadEvent::InboxMade(_) => matches!(self.stage, DownloadStage::MakingInbox),
            DownloadEvent::Downloaded(_) => matches!(self.stage, DownloadStage::Downloading),
            DownloadEvent::Written(_) => matches!(self.stage, DownloadStage::Writing),
        }
    }

    fn take_next(&mut self) -> (action: DownloadAction<String>)
        requires
            old(self).at <= old(self).plan@.len(),
        ensures
            (final(self)@, action@) == old(self)@.go_on(),
    {
        if self.at < self.plan.len() {
            self.stage = DownloadStage::Downloading;
            assert(self@.plan[self.at as int].0 == self.plan@[self.at as int].0 as int);
            DownloadAction::Download(self.plan[self.at].0)
        } else {
            self.stage = DownloadStage::Ended;
            DownloadAction::Finish(files_note(&self.stored))
        }
    }

    /// Takes a report and decides what is done next.
    pub fn step(&mut self, event: DownloadEvent) -> (action: DownloadAction<String>)
        requires
            old(self)@.wf(),
            old(self)@.awaits(event),
        ensures
            (final(self)@, action@) == old(self)@.next(event),
            final(self)@.wf(),
    {
        proof {
            a_download_ends(self@, event);
            assert(self@.plan.len() == self.plan@.len());
        }
        match event {
            DownloadEvent::InboxMade(made) => {
                if made {
                    self.take_next()
                } else {
                    self.stage = DownloadStage::Ended;
                    let note = String::new();
                    assert(note@ =~= Seq::<char>::empty());
                    DownloadAction::Finish(note)
                }
            },
            DownloadEvent::Downloaded(size) => {
                let kept = match size {
                    Some(size) => size <= MAX_INBOUND_BYTES,
                    None => false,
                };
                if kept {
                    self.stage = DownloadStage::Writing;
                    let name = self.plan[self.at].1.clone();
                    assert(self@.plan[self.at as int].1 == name@);
                    DownloadAction::Write(name)
                } else {
                    self.at = self.at + 1;
                    self.take_next()
                }
            },
            DownloadEvent::Written(written) => {
                if written {
                    let ghost before = texts(self.stored@);
                    let name = self.plan[self.at].1.clone();
                    assert(self@.plan[self.at as int].1 == name@);
                    self.stored.push(name);
                    assert(texts(self.stored@) =~= before.push(name@));
                }
                self.at = self.at + 1;
                self.take_next()
            },
        }
    }
}

/// What is done next about the files that a reply attaches.
#[derive(Debug)]
pub enum AttachAction<S> {
    /// Resolve the work directory.
    ResolveRoot,
    /// Resolve this path in the work directory.
    Resolve(S),
    /// Read the file that was resolved.
    Read,
    /// Stop.
    Finish,
}

impl View for AttachAction<String> {
    type V = AttachAction<Seq<char>>;

    open spec fn view(&self) -> AttachAction<Seq<char>> {
        match self {
            AttachAction::ResolveRoot => AttachAction::ResolveRoot,
            AttachAction::Resolve(path) => AttachAction::Resolve(path@),
            AttachAction::Read => AttachAction::Read,
            AttachAction::Finish => AttachAction::Finish,
        }
    }
}

/// What the driver reports. `P` is the type of the parts of a path, `S` that of a text and `B` that
/// of the bytes of a file.
#[derive(Debug)]
pub enum AttachEvent<P, S, B> {
    /// The parts of the work directory, if it could be resolved.
    RootResolved(Option<P>),
    /// The parts of the path and its last one as text.
    Resolved { parts: P, filename: Option<S> },
    /// There is no such path.
    Unresolved,
    /// What the file holds, if it could be read.
    Read(Option<B>),
}

impl View for AttachEvent<Vec<Vec<u8>>, String, Vec<u8>> {
    type V = AttachEvent<Seq<Seq<u8>>, Seq<char>, Seq<u8>>;

    open spec fn view(&self) -> AttachEvent<Seq<Seq<u8>>, Seq<char>, Seq<u8>> {
        match self {
            AttachEvent::RootResolved(root) => AttachEvent::RootResolved(
                match root {
                    Some(parts) => Some(path_parts(parts@)),
                    None => None,
                },
            ),
            AttachEvent::Resolved { parts, filename } => AttachEvent::Resolved {
                parts: path_parts(parts@),
                filename: maybe(*filename),
            },
            AttachEvent::Unresolved => AttachEvent::Unresolved,
            AttachEvent::Read(bytes) => AttachEvent::Read(
                match bytes {
                    Some(bytes) => Some(bytes@),
                    None => None,
                },
            ),
        }
    }
}

/// What reading the attached files waits for.
#[derive(Debug, Clone, Copy, PartialEq, Eq, Structural)]
pub enum AttachStage {
    ResolvingRoot,
    Resolving,
    Reading,
    Ended,
}

/// The names and contents of files.
pub open spec fn outbound_view(files: Seq<OutboundFile>) -> Seq<(Seq<char>, Seq<u8>)> {
    files.map_values(|file: OutboundFile| (file.filename@, file.bytes@))
}

/// Reading the files that a reply attaches. `P` is the type of the parts of a path, `S` that of a
/// text, `L` that of a list of texts and `F` that of a list of files.
#[derive(Debug)]
pub struct Attaching<P, S, L, F> {
    /// The parts of the work directory, once it is resolved.
    pub root: P,
    /// The paths that the reply names.
    pub names: L,
    /// How many of them are done.
    pub at: usize,
    /// The last part of the path in hand, as text.
    pub filename: Option<S>,
    /// The files that were read.
    pub files: F,
    pub stage: AttachStage,
}

impl View for Attaching<Vec<Vec<u8>>, String, Vec<String>, Vec<OutboundFile>> {
    type V = Attaching<Seq<Seq<u8>>, Seq<char>, Seq<Seq<char>>, Seq<(Seq<char>, Seq<u8>)>>;

    open spec fn view(&self) -> Attaching<
        Seq<Seq<u8>>,
        Seq<char>,
        Seq<Seq<char>>,
        Seq<(Seq<char>, Seq<u8>)>,
    > {
        Attaching {
            root: path_parts(self.root@),
            names: texts(self.names@),
            at: self.at,
            filename: maybe(self.filename),
            files: outbound_view(self.files@),
            stage: self.stage,
        }
    }
}

impl Attaching<Seq<Seq<u8>>, Seq<char>, Seq<Seq<char>>, Seq<(Seq<char>, Seq<u8>)>> {
    /// What holds of every one that `begin` and `step` give.
    pub open spec fn wf(self) -> bool {
        &&& self.at <= self.names.len() <= usize::MAX
        &&& self.stage is Resolving || self.stage is Reading ==> self.at < self.names.len()
        &&& self.files.len() <= self.at
    }

    /// About to resolve the next path, or at the end.
    pub open spec fn go_on(self) -> (
        Attaching<Seq<Seq<u8>>, Seq<char>, Seq<Seq<char>>, Seq<(Seq<char>, Seq<u8>)>>,
        AttachAction<Seq<char>>,
    ) {
        if self.at < self.names.len() {
            (
                Attaching { stage: AttachStage::Resolving, ..self },
                AttachAction::Resolve(self.names[self.at as int]),
            )
        } else {
            (Attaching { stage: AttachStage::Ended, ..self }, AttachAction::Finish)
        }
    }

    /// Past the path in hand.
    pub open spec fn past(self) -> Attaching<
        Seq<Seq<u8>>,
        Seq<char>,
        Seq<Seq<char>>,
        Seq<(Seq<char>, Seq<u8>)>,
    > {
        Attaching { at: (self.at + 1) as usize, ..self }
    }

    /// Whether this is waiting for a report of this kind.
    pub open spec fn awaits(self, event: AttachEvent<Seq<Seq<u8>>, Seq<char>, Seq<u8>>) -> bool {
        match event {
            AttachEvent::RootResolved(_) => self.stage is ResolvingRoot,
            AttachEvent::Resolved { .. } | AttachEvent::Unresolved => self.stage is Resolving,
            AttachEvent::Read(_) => self.stage is Reading,
        }
    }

    /// What comes after a report. A path that does not resolve or leads out of the work directory,
    /// and a file that cannot be read, is empty or too large, or has no readable name, is passed
    /// over.
    pub open spec fn next(self, event: AttachEvent<Seq<Seq<u8>>, Seq<char>, Seq<u8>>) -> (
        Attaching<Seq<Seq<u8>>, Seq<char>, Seq<Seq<char>>, Seq<(Seq<char>, Seq<u8>)>>,
        AttachAction<Seq<char>>,
    ) {
        match event {
            AttachEvent::RootResolved(Some(root)) => (Attaching { root, ..self }).go_on(),
            AttachEvent::RootResolved(None) => (
                Attaching { stage: AttachStage::Ended, ..self },
                AttachAction::Finish,
            ),
            AttachEvent::Resolved { parts, filename } => if lies_within(self.root, parts) {
                (Attaching { filename, stage: AttachStage::Reading, ..self }, AttachAction::Read)
            } else {
                self.past().go_on()
            },
            AttachEvent::Unresolved => self.past().go_on(),
            AttachEvent::Read(bytes) => if bytes is Some && 0 < bytes->0.len() <= MAX_ATTACH_BYTES
                && self.filename is Some {
                (Attaching {
                    files: self.files.push((self.filename->0, bytes->0)),
                    ..self.past()
                }).go_on()
            } else {
                self.past().go_on()
            },
        }
    }

    /// The most reports that this takes until it ends.
    pub open spec fn reports_left(self) -> int {
        let left = 2 * (self.names.len() - self.at);
        match self.stage {
            AttachStage::ResolvingRoot => left + 1,
            AttachStage::Resolving => left,
            AttachStage::Reading => left - 1,
            AttachStage::Ended => 0,
        }
    }
}

/// Only files in the work directory are read: a read is ordered for no path that leads out of it.
pub proof fn only_files_in_the_work_directory_are_read(
    attaching: Attaching<Seq<Seq<u8>>, Seq<char>, Seq<Seq<char>>, Seq<(Seq<char>, Seq<u8>)>>,
    event: AttachEvent<Seq<Seq<u8>>, Seq<char>, Seq<u8>>,
)
    requires
        attaching.awaits(event),
        attaching.next(event).1 is Read,
    ensures
        event matches AttachEvent::Resolved { parts, .. } && lies_within(attaching.root, parts),
        attaching.next(event).0.root == attaching.root,
{
}

/// A report keeps this what it is and brings it nearer to its end; every file that is added is
/// neither empty nor too large.
pub proof fn attaching_ends(
    attaching: Attaching<Seq<Seq<u8>>, Seq<char>, Seq<Seq<char>>, Seq<(Seq<char>, Seq<u8>)>>,
    event: AttachEvent<Seq<Seq<u8>>, Seq<char>, Seq<u8>>,
)
    requires
        attaching.wf(),
        attaching.awaits(event),
    ensures
        attaching.next(event).0.wf(),
        0 <= attaching.next(event).0.reports_left() < attaching.reports_left(),
        attaching.next(event).0.stage is Ended <==> attaching.next(event).1 is Finish,
        attaching.next(event).0.files == attaching.files || (attaching.next(event).0.files
            == attaching.files.push(attaching.next(event).0.files.last()) && 0 < attaching.next(
            event,
        ).0.files.last().1.len() <= MAX_ATTACH_BYTES),
{
}

impl Attaching<Vec<Vec<u8>>, String, Vec<String>, Vec<OutboundFile>> {
    /// Starts to read the files that a reply names.
    pub fn begin(names: Vec<String>) -> (begun: (
        Attaching<Vec<Vec<u8>>, String, Vec<String>, Vec<OutboundFile>>,
        AttachAction<String>,
    ))
        ensures
            begun.0@ == (Attaching {
                root: Seq::<Seq<u8>>::empty(),
                names: texts(names@),
                at: 0usize,
                filename: None::<Seq<char>>,
                files: Seq::<(Seq<char>, Seq<u8>)>::empty(),
                stage: AttachStage::ResolvingRoot,
            }),
            begun.0@.wf(),
            begun.1@ == AttachAction::<Seq<char>>::ResolveRoot,
    {
        let attaching = Attaching {
            root: Vec::new(),
            names,
            at: 0,
            filename: None,
            files: Vec::new(),
            stage: AttachStage::ResolvingRoot,
        };
        assert(attaching.names.len() == attaching@.names.len());
        assert(path_parts(attaching.root@) =~= Seq::<Seq<u8>>::empty());
        assert(outbound_view(attaching.files@) =~= Seq::<(Seq<char>, Seq<u8>)>::empty());
        (attaching, AttachAction::ResolveRoot)
    }

    /// Whether this is waiting for a report of this kind.
    pub fn is_awaiting(&self, event: &AttachEvent<Vec<Vec<u8>>, String, Vec<u8>>) -> (yes: bool)
        ensures
            yes == self@.awaits(event@),
    {
        match event {
            AttachEvent::RootResolved(_) => matches!(self.stage, AttachStage::ResolvingRoot),
            AttachEvent::Resolved { .. } | AttachEvent::Unresolved => matches!(
                self.stage,
                AttachStage::Resolving
            ),
            AttachEvent::Read(_) => matches!(self.stage, AttachStage::Reading),
        }
    }

    /// Gives the files that are uploaded: those that were read, and no upload where there are none.
    pub fn upload(self) -> (files: Option<Vec<OutboundFile>>)
        ensures
            match files {
                Some(files) => files@.len() > 0 && outbound_view(files@) == self@.files,
                None => self@.files.len() == 0,
            },
    {
        assert(self@.files.len() == self.files@.len());
        if self.files.len() == 0 {
            None
        } else {
            Some(self.files)
        }
    }

    fn take_next(&mut self) -> (action: AttachAction<String>)
        requires
            old(self).at <= old(self).names@.len(),
        ensures
            (final(self)@, action@) == old(self)@.go_on(),
    {
        if self.at < self.names.len() {
            self.stage = AttachStage::Resolving;
            assert(self@.names[self.at as int] == self.names@[self.at as int]@);
            AttachAction::Resolve(self.names[self.at].clone())
        } else {
            self.stage = AttachStage::Ended;
            AttachAction::Finish
        }
    }

    /// Takes a report and decides what is done next.
    pub fn step(&mut self, event: AttachEvent<Vec<Vec<u8>>, String, Vec<u8>>) -> (action:
        AttachAction<String>)
        requires
            old(self)@.wf(),
            old(self)@.awaits(event@),
        ensures
            (final(self)@, action@) == old(self)@.next(event@),
            final(self)@.wf(),
    {
        proof {
            attaching_ends(self@, event@);
            assert(self@.names.len() == self.names@.len());
        }
        match event {
            AttachEvent::RootResolved(root) => match root {
                Some(root) => {
                    self.root = root;
                    self.take_next()
                },
                None => {
                    self.stage = AttachStage::Ended;
                    AttachAction::Finish
                },
            },
            AttachEvent::Resolved { parts, filename } => {
                if path_within(&self.root, &parts) {
                    self.filename = filename;
                    self.stage = AttachStage::Reading;
                    AttachAction::Read
                } else {
                    self.at = self.at + 1;
                    self.take_next()
                }
            },
            AttachEvent::Unresolved => {
                self.at = self.at + 1;
                self.take_next()
            },
            AttachEvent::Read(bytes) => {
                let ghost before = outbound_view(self.files@);
                let file = match bytes {
                    Some(bytes) => keep_outbound_file(self.filename.clone(), bytes),
                    None => None,
                };
                if let Some(file) = file {
                    let ghost entry = (file.filename@, file.bytes@);
                    self.files.push(file);
                    assert(outbound_view(self.files@) =~= before.push(entry));
                }
                self.at = self.at + 1;
                self.take_next()
            },
        }
    }
}

} // verus!
